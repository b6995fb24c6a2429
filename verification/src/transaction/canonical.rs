use crate::transaction::message::OracleMessage;
use crate::types::{Fraction, Outpoint, U128};
use vstd::prelude::*;
use vstd::utf8::encode_utf8;

verus! {

/// The fields of an oracle message, in the order in which an oracle
/// signs them.
#[derive(Clone, Copy, Debug, PartialEq, Eq, Structural)]
pub enum OracleField {
    AssetId,
    BlockHeight,
    InputOutpoint,
    Ltv,
    MinInValue,
    OutValue,
    Outstanding,
    Ratio,
}

/// The name of a field, in bytes.
pub open spec fn field_name(field: OracleField) -> Seq<u8> {
    match field {
        OracleField::AssetId => seq![97u8, 115, 115, 101, 116, 95, 105, 100],
        OracleField::BlockHeight => seq![98u8, 108, 111, 99, 107, 95, 104, 101, 105, 103, 104, 116],
        OracleField::InputOutpoint => seq![105u8, 110, 112, 117, 116, 95, 111, 117, 116, 112, 111, 105, 110, 116],
        OracleField::Ltv => seq![108u8, 116, 118],
        OracleField::MinInValue => seq![109u8, 105, 110, 95, 105, 110, 95, 118, 97, 108, 117, 101],
        OracleField::OutValue => seq![111u8, 117, 116, 95, 118, 97, 108, 117, 101],
        OracleField::Outstanding => seq![111u8, 117, 116, 115, 116, 97, 110, 100, 105, 110, 103],
        OracleField::Ratio => seq![114u8, 97, 116, 105, 111],
    }
}

pub fn field_name_bytes(field: OracleField) -> (r: Vec<u8>)
    ensures
        r@ == field_name(field),
{
    let r = match field {
        OracleField::AssetId => vec![97u8, 115, 115, 101, 116, 95, 105, 100],
        OracleField::BlockHeight => vec![98u8, 108, 111, 99, 107, 95, 104, 101, 105, 103, 104, 116],
        OracleField::InputOutpoint => vec![105u8, 110, 112, 117, 116, 95, 111, 117, 116, 112, 111, 105, 110, 116],
        OracleField::Ltv => vec![108u8, 116, 118],
        OracleField::MinInValue => vec![109u8, 105, 110, 95, 105, 110, 95, 118, 97, 108, 117, 101],
        OracleField::OutValue => vec![111u8, 117, 116, 95, 118, 97, 108, 117, 101],
        OracleField::Outstanding => vec![111u8, 117, 116, 115, 116, 97, 110, 100, 105, 110, 103],
        OracleField::Ratio => vec![114u8, 97, 116, 105, 111],
    };
    assert(r@ =~= field_name(field));
    r
}

/// A number in decimal digits, without leading zeros.
pub open spec fn decimal(n: nat) -> Seq<u8>
    decreases n,
{
    if n < 10 {
        seq![(48 + n) as u8]
    } else {
        decimal(n / 10).push((48 + n % 10) as u8)
    }
}

/// The lowest `digits` hexadecimal digits of a number, in lower case.
pub open spec fn hex(x: nat, digits: nat) -> Seq<u8>
    decreases digits,
{
    if digits == 0 {
        Seq::empty()
    } else {
        hex(x / 16, (digits - 1) as nat).push(hex_digit(x % 16))
    }
}

pub open spec fn hex_digit(d: nat) -> u8 {
    if d < 10 {
        (48 + d) as u8
    } else {
        (87 + d) as u8
    }
}

/// A byte of a text as it stands between quotes: a quote and a
/// backslash behind a backslash, a control byte as `\u00` and its two
/// hexadecimal digits, any other byte as it is.
pub open spec fn escaped_byte(b: u8) -> Seq<u8> {
    if b == 34 {
        seq![92u8, 34]
    } else if b == 92 {
        seq![92u8, 92]
    } else if b < 32 {
        seq![92u8, 117, 48, 48] + hex(b as nat, 2)
    } else {
        seq![b]
    }
}

/// The first `n` bytes of a text as they stand between quotes.
pub open spec fn escaped(text: Seq<u8>, n: int) -> Seq<u8>
    decreases n,
{
    if n <= 0 {
        Seq::empty()
    } else {
        escaped(text, n - 1) + escaped_byte(text[n - 1])
    }
}

/// A text between quotes.
pub open spec fn quoted(text: Seq<u8>) -> Seq<u8> {
    seq![34u8] + escaped(text, text.len() as int) + seq![34u8]
}

/// An amount: its decimal digits between quotes.
pub open spec fn amount_text(a: U128) -> Seq<u8> {
    seq![34u8] + decimal(a.0 as nat) + seq![34u8]
}

/// A ratio: its two amounts in brackets.
pub open spec fn fraction_text(f: Fraction) -> Seq<u8> {
    seq![91u8] + amount_text(U128(f.numerator)) + seq![44u8] + amount_text(U128(f.denominator))
        + seq![93u8]
}

/// An output: the 64 hexadecimal digits of its transaction, a colon
/// and its number, between quotes.
pub open spec fn outpoint_text(o: Outpoint) -> Seq<u8> {
    seq![34u8] + hex(o.txid.hi as nat, 32) + hex(o.txid.lo as nat, 32) + seq![58u8] + decimal(
        o.vout as nat,
    ) + seq![34u8]
}

/// A field with its value: the name between quotes, a colon, the value.
pub open spec fn member(field: OracleField, value: Seq<u8>) -> Seq<u8> {
    seq![34u8] + field_name(field) + seq![34u8, 58] + value
}

/// The members of a document, with commas between them.
pub open spec fn joined(parts: Seq<Seq<u8>>) -> Seq<u8>
    decreases parts.len(),
{
    if parts.len() == 0 {
        Seq::empty()
    } else if parts.len() == 1 {
        parts[0]
    } else {
        joined(parts.drop_last()) + seq![44u8] + parts.last()
    }
}

/// A list with one more member, where there is one.
pub open spec fn with_member(parts: Seq<Seq<u8>>, part: Option<Seq<u8>>) -> Seq<Seq<u8>> {
    match part {
        Some(p) => parts.push(p),
        None => parts,
    }
}

/// The value of an optional field as a member.
pub open spec fn optional(field: OracleField, value: Option<Seq<u8>>) -> Option<Seq<u8>> {
    match value {
        Some(v) => Some(member(field, v)),
        None => None,
    }
}

/// The members of an oracle message, in the order of their names. A
/// field without a value has no member.
pub open spec fn members(m: OracleMessage) -> Seq<Seq<u8>> {
    let c = with_member(
        first_members(m),
        optional(
            OracleField::InputOutpoint,
            match m.input_outpoint {
                Some(o) => Some(outpoint_text(o)),
                None => None,
            },
        ),
    );
    let d = with_member(c, optional(OracleField::Ltv, optional_fraction(m.ltv)));
    let e = with_member(d, optional(OracleField::MinInValue, optional_amount(m.min_in_value)));
    let f = with_member(e, optional(OracleField::OutValue, optional_amount(m.out_value)));
    let g = with_member(f, optional(OracleField::Outstanding, optional_amount(m.outstanding)));
    with_member(g, optional(OracleField::Ratio, optional_fraction(m.ratio)))
}

/// The canonical encoding of an oracle message, which the oracle signs:
/// a document in braces whose members stand in the order of their
/// names, without any space. Amounts are written as decimal digits
/// between quotes, ratios as the two amounts in brackets, the block
/// height as a bare number.
pub open spec fn canonical(m: OracleMessage) -> Seq<u8> {
    seq![123u8] + joined(members(m)) + seq![125u8]
}

/// Writes a number in decimal digits.
pub fn write_decimal(out: &mut Vec<u8>, n: u128)
    ensures
        final(out)@ == old(out)@ + decimal(n as nat),
    decreases n,
{
    if n < 10 {
        out.push(48 + n as u8);
        assert(out@ =~= old(out)@ + decimal(n as nat));
    } else {
        write_decimal(out, n / 10);
        out.push(48 + (n % 10) as u8);
        assert(out@ =~= old(out)@ + decimal(n as nat));
    }
}

/// Writes the lowest `digits` hexadecimal digits of a number.
pub fn write_hex(out: &mut Vec<u8>, x: u128, digits: u32)
    ensures
        final(out)@ == old(out)@ + hex(x as nat, digits as nat),
    decreases digits,
{
    if digits == 0 {
        assert(out@ =~= old(out)@ + hex(x as nat, 0));
    } else {
        write_hex(out, x / 16, digits - 1);
        let d = (x % 16) as u8;
        out.push(if d < 10 {
            48 + d
        } else {
            87 + d
        });
        assert(out@ =~= old(out)@ + hex(x as nat, digits as nat));
    }
}

/// Writes a text between quotes.
pub fn write_quoted(out: &mut Vec<u8>, text: &[u8])
    ensures
        final(out)@ == old(out)@ + quoted(text@),
{
    out.push(34);
    let ghost start = out@;
    let mut i: usize = 0;
    while i < text.len()
        invariant
            i <= text@.len(),
            out@ == start + escaped(text@, i as int),
        decreases text@.len() - i,
    {
        let b = text[i];
        let ghost before = out@;
        if b == 34 {
            out.push(92);
            out.push(34);
        } else if b == 92 {
            out.push(92);
            out.push(92);
        } else if b < 32 {
            out.push(92);
            out.push(117);
            out.push(48);
            out.push(48);
            write_hex(out, b as u128, 2);
        } else {
            out.push(b);
        }
        assert(out@ =~= before + escaped_byte(b));
        i += 1;
        assert(out@ =~= start + escaped(text@, i as int));
    }
    out.push(34);
    assert(out@ =~= old(out)@ + quoted(text@));
}

/// Writes an amount.
pub fn write_amount(out: &mut Vec<u8>, a: U128)
    ensures
        final(out)@ == old(out)@ + amount_text(a),
{
    out.push(34);
    write_decimal(out, a.0);
    out.push(34);
    assert(out@ =~= old(out)@ + amount_text(a));
}

/// Writes a ratio.
pub fn write_fraction(out: &mut Vec<u8>, f: Fraction)
    ensures
        final(out)@ == old(out)@ + fraction_text(f),
{
    out.push(91);
    write_amount(out, U128(f.numerator));
    out.push(44);
    write_amount(out, U128(f.denominator));
    out.push(93);
    assert(out@ =~= old(out)@ + fraction_text(f));
}

/// Writes an output.
pub fn write_outpoint(out: &mut Vec<u8>, o: Outpoint)
    ensures
        final(out)@ == old(out)@ + outpoint_text(o),
{
    out.push(34);
    write_hex(out, o.txid.hi, 32);
    write_hex(out, o.txid.lo, 32);
    out.push(58);
    write_decimal(out, o.vout as u128);
    out.push(34);
    assert(out@ =~= old(out)@ + outpoint_text(o));
}

/// Writes the name of a member, after a comma where members stand
/// before it.
fn write_name(out: &mut Vec<u8>, any: bool, field: OracleField)
    ensures
        final(out)@ == old(out)@ + (if any {
            seq![44u8]
        } else {
            Seq::empty()
        }) + seq![34u8] + field_name(field) + seq![34u8, 58],
{
    if any {
        out.push(44);
    }
    out.push(34);
    let name = field_name_bytes(field);
    let ghost before = out@;
    let mut i: usize = 0;
    while i < name.len()
        invariant
            i <= name@.len(),
            out@ == before + name@.subrange(0, i as int),
        decreases name@.len() - i,
    {
        out.push(name[i]);
        i += 1;
        assert(out@ =~= before + name@.subrange(0, i as int));
    }
    assert(name@.subrange(0, name@.len() as int) == name@);
    out.push(34);
    out.push(58);
    assert(out@ =~= old(out)@ + (if any {
        seq![44u8]
    } else {
        Seq::empty()
    }) + seq![34u8] + field_name(field) + seq![34u8, 58]);
}

/// What a document holds after one more member.
proof fn lemma_joined_push(head: Seq<u8>, parts: Seq<Seq<u8>>, field: OracleField, value: Seq<u8>)
    ensures
        head + joined(parts.push(member(field, value))) == head + joined(parts) + (if parts.len()
            > 0 {
            seq![44u8]
        } else {
            Seq::empty()
        }) + seq![34u8] + field_name(field) + seq![34u8, 58] + value,
{
    let next = parts.push(member(field, value));
    assert(next.drop_last() == parts);
    if parts.len() == 0 {
        assert(joined(parts) =~= Seq::<u8>::empty());
    }
    assert(head + joined(next) =~= head + joined(parts) + (if parts.len() > 0 {
        seq![44u8]
    } else {
        Seq::empty()
    }) + seq![34u8] + field_name(field) + seq![34u8, 58] + value);
}

/// The text of an optional amount.
pub open spec fn optional_amount(v: Option<U128>) -> Option<Seq<u8>> {
    match v {
        Some(a) => Some(amount_text(a)),
        None => None,
    }
}

/// The text of an optional ratio.
pub open spec fn optional_fraction(v: Option<Fraction>) -> Option<Seq<u8>> {
    match v {
        Some(f) => Some(fraction_text(f)),
        None => None,
    }
}

fn put_amount(
    out: &mut Vec<u8>,
    any: bool,
    field: OracleField,
    value: Option<U128>,
    Ghost(head): Ghost<Seq<u8>>,
    Ghost(parts): Ghost<Seq<Seq<u8>>>,
) -> (now: bool)
    requires
        old(out)@ == head + joined(parts),
        any == (parts.len() > 0),
    ensures
        final(out)@ == head + joined(with_member(parts, optional(field, optional_amount(value)))),
        now == (with_member(parts, optional(field, optional_amount(value))).len() > 0),
{
    match value {
        Some(v) => {
            proof {
                lemma_joined_push(head, parts, field, amount_text(v));
            }
            write_name(out, any, field);
            write_amount(out, v);
            true
        },
        None => any,
    }
}

fn put_fraction(
    out: &mut Vec<u8>,
    any: bool,
    field: OracleField,
    value: Option<Fraction>,
    Ghost(head): Ghost<Seq<u8>>,
    Ghost(parts): Ghost<Seq<Seq<u8>>>,
) -> (now: bool)
    requires
        old(out)@ == head + joined(parts),
        any == (parts.len() > 0),
    ensures
        final(out)@ == head + joined(
            with_member(parts, optional(field, optional_fraction(value))),
        ),
        now == (with_member(parts, optional(field, optional_fraction(value))).len() > 0),
{
    match value {
        Some(f) => {
            proof {
                lemma_joined_push(head, parts, field, fraction_text(f));
            }
            write_name(out, any, field);
            write_fraction(out, f);
            true
        },
        None => any,
    }
}

/// The members of an oracle message up to its block height.
pub open spec fn first_members(m: OracleMessage) -> Seq<Seq<u8>> {
    with_member(
        Seq::empty(),
        optional(
            OracleField::AssetId,
            match m.asset_id {
                Some(id) => Some(quoted(encode_utf8(id@))),
                None => None,
            },
        ),
    ).push(member(OracleField::BlockHeight, decimal(m.block_height as nat)))
}

impl OracleMessage {
    /// Writes the opening brace and the members up to the block height.
    fn write_first_members(&self, out: &mut Vec<u8>)
        requires
            old(out)@.len() == 0,
        ensures
            final(out)@ == seq![123u8] + joined(first_members(*self)),
    {
        out.push(123);
        let ghost head = out@;
        let ghost mut parts: Seq<Seq<u8>> = Seq::empty();
        let mut any = false;
        assert(out@ =~= head + joined(parts));
        if let Some(id) = &self.asset_id {
            proof {
                lemma_joined_push(head, parts, OracleField::AssetId, quoted(encode_utf8(id@)));
                parts = parts.push(member(OracleField::AssetId, quoted(encode_utf8(id@))));
            }
            write_name(out, any, OracleField::AssetId);
            write_quoted(out, id.as_str().as_bytes());
            any = true;
        }
        proof {
            lemma_joined_push(
                head,
                parts,
                OracleField::BlockHeight,
                decimal(self.block_height as nat),
            );
        }
        write_name(out, any, OracleField::BlockHeight);
        write_decimal(out, self.block_height as u128);
    }

    /// The bytes that an oracle signs for the message.
    pub fn canonical_bytes(&self) -> (r: Vec<u8>)
        ensures
            r@ == canonical(*self),
    {
        let mut out: Vec<u8> = Vec::new();
        self.write_first_members(&mut out);
        let ghost head = seq![123u8];
        let ghost b = first_members(*self);
        let ghost c = with_member(
            b,
            optional(
                OracleField::InputOutpoint,
                match self.input_outpoint {
                    Some(o) => Some(outpoint_text(o)),
                    None => None,
                },
            ),
        );
        if let Some(o) = self.input_outpoint {
            proof {
                lemma_joined_push(head, b, OracleField::InputOutpoint, outpoint_text(o));
            }
            write_name(&mut out, true, OracleField::InputOutpoint);
            write_outpoint(&mut out, o);
        }
        assert(out@ == head + joined(c));
        let any = put_fraction(&mut out, true, OracleField::Ltv, self.ltv, Ghost(head), Ghost(c));
        let ghost d = with_member(c, optional(OracleField::Ltv, optional_fraction(self.ltv)));
        let any = put_amount(
            &mut out,
            any,
            OracleField::MinInValue,
            self.min_in_value,
            Ghost(head),
            Ghost(d),
        );
        let ghost e = with_member(
            d,
            optional(OracleField::MinInValue, optional_amount(self.min_in_value)),
        );
        let any = put_amount(
            &mut out,
            any,
            OracleField::OutValue,
            self.out_value,
            Ghost(head),
            Ghost(e),
        );
        let ghost f = with_member(
            e,
            optional(OracleField::OutValue, optional_amount(self.out_value)),
        );
        let any = put_amount(
            &mut out,
            any,
            OracleField::Outstanding,
            self.outstanding,
            Ghost(head),
            Ghost(f),
        );
        let ghost g = with_member(
            f,
            optional(OracleField::Outstanding, optional_amount(self.outstanding)),
        );
        put_fraction(&mut out, any, OracleField::Ratio, self.ratio, Ghost(head), Ghost(g));
        let ghost h = with_member(g, optional(OracleField::Ratio, optional_fraction(self.ratio)));
        assert(h == members(*self));
        out.push(125);
        assert(out@ =~= canonical(*self));
        out
    }
}

} // verus!
