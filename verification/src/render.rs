//! Rendering: a display string for every decoded value.
//!
//! Numbers render in decimal, sequences space-separated, ratios as
//! `numerator/denominator` — except that a zero denominator renders as
//! the sentinel `undefined`, without ever dividing. GPS coordinates
//! pick up their reference direction from the matching reference tag
//! of the same directory pass when it is present.

use vstd::prelude::*;

use crate::model::ExifDocument;
use crate::model::Field;
use crate::model::IfdKind;
use crate::model::Rational;
use crate::model::SRational;
use crate::model::TagValue;
use crate::model::TagValueModel;
use crate::registry::spec_tag_decimal;
use crate::registry::spec_tag_name;
use crate::registry::tag_decimal;
use crate::registry::tag_name;

verus! {

/// The decimal digit character for `d`.
pub open spec fn digit_char(d: int) -> char {
    if d == 0 {
        '0'
    } else if d == 1 {
        '1'
    } else if d == 2 {
        '2'
    } else if d == 3 {
        '3'
    } else if d == 4 {
        '4'
    } else if d == 5 {
        '5'
    } else if d == 6 {
        '6'
    } else if d == 7 {
        '7'
    } else if d == 8 {
        '8'
    } else {
        '9'
    }
}

/// The decimal rendering of a natural number.
pub open spec fn dec_str(n: nat) -> Seq<char>
    decreases n,
{
    if n < 10 {
        seq![digit_char(n as int)]
    } else {
        dec_str(n / 10) + seq![digit_char((n % 10) as int)]
    }
}

/// The decimal rendering of an integer, with a leading minus sign
/// when negative.
pub open spec fn int_str(n: int) -> Seq<char> {
    if n >= 0 {
        dec_str(n as nat)
    } else {
        seq!['-'] + dec_str((-n) as nat)
    }
}

/// The rendering of an unsigned ratio: the sentinel for a zero
/// denominator, `num/den` otherwise.
pub open spec fn rational_str(r: Rational) -> Seq<char> {
    if r.den == 0 {
        "undefined"@
    } else {
        dec_str(r.num as nat) + seq!['/'] + dec_str(r.den as nat)
    }
}

/// The rendering of a signed ratio, with the same sentinel rule.
pub open spec fn srational_str(r: SRational) -> Seq<char> {
    if r.den == 0 {
        "undefined"@
    } else {
        int_str(r.num as int) + seq!['/'] + int_str(r.den as int)
    }
}

/// A ratio with a zero denominator always renders as the sentinel,
/// signed or unsigned; no division is involved in either rendering.
pub proof fn lemma_zero_denominator_sentinel(r: Rational, s: SRational)
    requires
        r.den == 0,
        s.den == 0,
    ensures
        rational_str(r) == "undefined"@,
        srational_str(s) == "undefined"@,
{
}

/// Pieces joined by single spaces.
pub open spec fn join_strs(s: Seq<Seq<char>>) -> Seq<char>
    decreases s.len(),
{
    if s.len() == 0 {
        Seq::empty()
    } else if s.len() == 1 {
        s[0]
    } else {
        join_strs(s.drop_last()) + seq![' '] + s.last()
    }
}

/// Appending one piece extends a join by a space and the piece.
proof fn lemma_join_push(s: Seq<Seq<char>>, x: Seq<char>)
    ensures
        s.len() == 0 ==> join_strs(s.push(x)) == x,
        s.len() > 0 ==> join_strs(s.push(x)) == join_strs(s) + seq![' '] + x,
{
    assert(s.push(x).drop_last() =~= s);
    assert(s.push(x).last() == x);
    if s.len() == 0 {
        assert(join_strs(s.push(x)) == s.push(x)[0]);
    }
}

/// The display string of a decoded value.
pub open spec fn value_str(v: TagValueModel) -> Seq<char> {
    match v {
        TagValueModel::UnsignedInt(s) => join_strs(s.map_values(|x: u32| dec_str(x as nat))),
        TagValueModel::SignedInt(s) => join_strs(s.map_values(|x: i32| int_str(x as int))),
        TagValueModel::Rational(s) => join_strs(s.map_values(|x: Rational| rational_str(x))),
        TagValueModel::SRational(s) => join_strs(s.map_values(|x: SRational| srational_str(x))),
        TagValueModel::Ascii(t) => t,
        TagValueModel::Bytes(b) => join_strs(b.map_values(|x: u8| dec_str(x as nat))),
        TagValueModel::Undefined(b) => join_strs(b.map_values(|x: u8| dec_str(x as nat))),
    }
}

/// One decimal digit as a string slice.
fn digit_str(d: u64) -> (r: &'static str)
    requires
        d < 10,
    ensures
        r@ == seq![digit_char(d as int)],
{
    proof {
        reveal_strlit("0");
        reveal_strlit("1");
        reveal_strlit("2");
        reveal_strlit("3");
        reveal_strlit("4");
        reveal_strlit("5");
        reveal_strlit("6");
        reveal_strlit("7");
        reveal_strlit("8");
        reveal_strlit("9");
    }
    let r = if d == 0 {
        "0"
    } else if d == 1 {
        "1"
    } else if d == 2 {
        "2"
    } else if d == 3 {
        "3"
    } else if d == 4 {
        "4"
    } else if d == 5 {
        "5"
    } else if d == 6 {
        "6"
    } else if d == 7 {
        "7"
    } else if d == 8 {
        "8"
    } else {
        "9"
    };
    proof {
        assert(r@ =~= seq![digit_char(d as int)]);
    }
    r
}

/// Render an unsigned number in decimal.
pub fn u64_dec(n: u64) -> (r: String)
    ensures
        r@ == dec_str(n as nat),
    decreases n,
{
    if n < 10 {
        digit_str(n).to_string()
    } else {
        let head = u64_dec(n / 10);
        let tail = digit_str(n % 10);
        head.concat(tail)
    }
}

/// Render a signed number in decimal.
pub fn i64_dec(n: i64) -> (r: String)
    ensures
        r@ == int_str(n as int),
{
    if n >= 0 {
        u64_dec(n as u64)
    } else {
        let m: u64 = if n == i64::MIN {
            0x8000_0000_0000_0000u64
        } else {
            (-n) as u64
        };
        proof {
            reveal_strlit("-");
            assert(("-")@ =~= seq!['-']);
        }
        let s = "-".to_string();
        s.concat(u64_dec(m).as_str())
    }
}

/// Render an unsigned ratio.
pub fn render_rational(r: Rational) -> (s: String)
    ensures
        s@ == rational_str(r),
{
    if r.den == 0 {
        "undefined".to_string()
    } else {
        proof {
            reveal_strlit("/");
            assert(("/")@ =~= seq!['/']);
        }
        let num = u64_dec(r.num as u64);
        let slash = num.concat("/");
        slash.concat(u64_dec(r.den as u64).as_str())
    }
}

/// Render a signed ratio.
pub fn render_srational(r: SRational) -> (s: String)
    ensures
        s@ == srational_str(r),
{
    if r.den == 0 {
        "undefined".to_string()
    } else {
        proof {
            reveal_strlit("/");
            assert(("/")@ =~= seq!['/']);
        }
        let num = i64_dec(r.num as i64);
        let slash = num.concat("/");
        slash.concat(i64_dec(r.den as i64).as_str())
    }
}

/// The decimal-convention rendering of an unsigned ratio, one decimal
/// place, by integer arithmetic alone; the sentinel rule still holds.
pub open spec fn decimal1_str(r: Rational) -> Seq<char> {
    if r.den == 0 {
        "undefined"@
    } else {
        let t = r.num as int * 10 / r.den as int;
        dec_str((t / 10) as nat) + seq!['.'] + seq![digit_char(t % 10)]
    }
}

/// Render an unsigned ratio by the decimal convention.
pub fn render_decimal1(r: Rational) -> (s: String)
    ensures
        s@ == decimal1_str(r),
{
    if r.den == 0 {
        "undefined".to_string()
    } else {
        proof {
            reveal_strlit(".");
            assert((".")@ =~= seq!['.']);
        }
        let t: u64 = (r.num as u64 * 10) / (r.den as u64);
        let whole = u64_dec(t / 10);
        let dot = whole.concat(".");
        dot.concat(digit_str(t % 10))
    }
}

/// The display string of a value as field (`kind`, `tag`) renders it:
/// by the tag's decimal convention where the registry prescribes one,
/// as the plain value string otherwise.
pub open spec fn spec_field_value_str(kind: IfdKind, tag: u16, v: TagValueModel) -> Seq<char> {
    if spec_tag_decimal(kind, tag) {
        match v {
            TagValueModel::Rational(s) => join_strs(s.map_values(|x: Rational| decimal1_str(x))),
            _ => value_str(v),
        }
    } else {
        value_str(v)
    }
}

/// Render a value as field (`kind`, `tag`) displays it.
pub fn render_field_value(kind: IfdKind, tag: u16, v: &TagValue) -> (r: String)
    ensures
        r@ == spec_field_value_str(kind, tag, v@),
{
    if tag_decimal(kind, tag) {
        match v {
            TagValue::Rational(s) => {
                let mut acc = String::new();
                let mut i: usize = 0;
                while i < s.len()
                    invariant
                        0 <= i <= s@.len(),
                        acc@ == join_strs(
                            s@.take(i as int).map_values(|x: Rational| decimal1_str(x)),
                        ),
                    decreases s@.len() - i,
                {
                    let piece = render_decimal1(s[i]);
                    proof {
                        reveal_strlit(" ");
                        assert((" ")@ =~= seq![' ']);
                        lemma_join_push(
                            s@.take(i as int).map_values(|x: Rational| decimal1_str(x)),
                            piece@,
                        );
                        assert(s@.take(i + 1 as int).map_values(|x: Rational| decimal1_str(x))
                            =~= s@.take(i as int).map_values(|x: Rational| decimal1_str(x)).push(
                            decimal1_str(s@[i as int]),
                        ));
                    }
                    if i > 0 {
                        acc.append(" ");
                    }
                    acc.append(piece.as_str());
                    i = i + 1;
                }
                proof {
                    assert(s@.take(s@.len() as int) =~= s@);
                }
                acc
            },
            _ => render_value(v),
        }
    } else {
        render_value(v)
    }
}

/// Render a decoded value as its display string.
pub fn render_value(v: &TagValue) -> (r: String)
    ensures
        r@ == value_str(v@),
{
    match v {
        TagValue::UnsignedInt(s) => {
            let mut acc = String::new();
            let mut i: usize = 0;
            while i < s.len()
                invariant
                    0 <= i <= s@.len(),
                    acc@ == join_strs(s@.take(i as int).map_values(|x: u32| dec_str(x as nat))),
                decreases s@.len() - i,
            {
                let piece = u64_dec(s[i] as u64);
                proof {
                    reveal_strlit(" ");
                    assert((" ")@ =~= seq![' ']);
                    lemma_join_push(
                        s@.take(i as int).map_values(|x: u32| dec_str(x as nat)),
                        piece@,
                    );
                    assert(s@.take(i + 1 as int).map_values(|x: u32| dec_str(x as nat)) =~= s@.take(
                        i as int,
                    ).map_values(|x: u32| dec_str(x as nat)).push(dec_str(s@[i as int] as nat)));
                }
                if i > 0 {
                    acc.append(" ");
                }
                acc.append(piece.as_str());
                i = i + 1;
            }
            proof {
                assert(s@.take(s@.len() as int) =~= s@);
            }
            acc
        },
        TagValue::SignedInt(s) => {
            let mut acc = String::new();
            let mut i: usize = 0;
            while i < s.len()
                invariant
                    0 <= i <= s@.len(),
                    acc@ == join_strs(s@.take(i as int).map_values(|x: i32| int_str(x as int))),
                decreases s@.len() - i,
            {
                let piece = i64_dec(s[i] as i64);
                proof {
                    reveal_strlit(" ");
                    assert((" ")@ =~= seq![' ']);
                    lemma_join_push(
                        s@.take(i as int).map_values(|x: i32| int_str(x as int)),
                        piece@,
                    );
                    assert(s@.take(i + 1 as int).map_values(|x: i32| int_str(x as int)) =~= s@.take(
                        i as int,
                    ).map_values(|x: i32| int_str(x as int)).push(int_str(s@[i as int] as int)));
                }
                if i > 0 {
                    acc.append(" ");
                }
                acc.append(piece.as_str());
                i = i + 1;
            }
            proof {
                assert(s@.take(s@.len() as int) =~= s@);
            }
            acc
        },
        TagValue::Rational(s) => {
            let mut acc = String::new();
            let mut i: usize = 0;
            while i < s.len()
                invariant
                    0 <= i <= s@.len(),
                    acc@ == join_strs(s@.take(i as int).map_values(|x: Rational| rational_str(x))),
                decreases s@.len() - i,
            {
                let piece = render_rational(s[i]);
                proof {
                    reveal_strlit(" ");
                    assert((" ")@ =~= seq![' ']);
                    lemma_join_push(
                        s@.take(i as int).map_values(|x: Rational| rational_str(x)),
                        piece@,
                    );
                    assert(s@.take(i + 1 as int).map_values(|x: Rational| rational_str(x))
                        =~= s@.take(i as int).map_values(|x: Rational| rational_str(x)).push(
                        rational_str(s@[i as int]),
                    ));
                }
                if i > 0 {
                    acc.append(" ");
                }
                acc.append(piece.as_str());
                i = i + 1;
            }
            proof {
                assert(s@.take(s@.len() as int) =~= s@);
            }
            acc
        },
        TagValue::SRational(s) => {
            let mut acc = String::new();
            let mut i: usize = 0;
            while i < s.len()
                invariant
                    0 <= i <= s@.len(),
                    acc@ == join_strs(
                        s@.take(i as int).map_values(|x: SRational| srational_str(x)),
                    ),
                decreases s@.len() - i,
            {
                let piece = render_srational(s[i]);
                proof {
                    reveal_strlit(" ");
                    assert((" ")@ =~= seq![' ']);
                    lemma_join_push(
                        s@.take(i as int).map_values(|x: SRational| srational_str(x)),
                        piece@,
                    );
                    assert(s@.take(i + 1 as int).map_values(|x: SRational| srational_str(x))
                        =~= s@.take(i as int).map_values(|x: SRational| srational_str(x)).push(
                        srational_str(s@[i as int]),
                    ));
                }
                if i > 0 {
                    acc.append(" ");
                }
                acc.append(piece.as_str());
                i = i + 1;
            }
            proof {
                assert(s@.take(s@.len() as int) =~= s@);
            }
            acc
        },
        TagValue::Ascii(t) => t.clone(),
        TagValue::Bytes(b) => render_byte_seq(b),
        TagValue::Undefined(b) => render_byte_seq(b),
    }
}

/// Render raw bytes as space-separated decimal numbers.
fn render_byte_seq(b: &Vec<u8>) -> (r: String)
    ensures
        r@ == join_strs(b@.map_values(|x: u8| dec_str(x as nat))),
{
    let mut acc = String::new();
    let mut i: usize = 0;
    while i < b.len()
        invariant
            0 <= i <= b@.len(),
            acc@ == join_strs(b@.take(i as int).map_values(|x: u8| dec_str(x as nat))),
        decreases b@.len() - i,
    {
        let piece = u64_dec(b[i] as u64);
        proof {
            reveal_strlit(" ");
            assert((" ")@ =~= seq![' ']);
            lemma_join_push(b@.take(i as int).map_values(|x: u8| dec_str(x as nat)), piece@);
            assert(b@.take(i + 1 as int).map_values(|x: u8| dec_str(x as nat)) =~= b@.take(
                i as int,
            ).map_values(|x: u8| dec_str(x as nat)).push(dec_str(b@[i as int] as nat)));
        }
        if i > 0 {
            acc.append(" ");
        }
        acc.append(piece.as_str());
        i = i + 1;
    }
    proof {
        assert(b@.take(b@.len() as int) =~= b@);
    }
    acc
}

/// The label a field renders under: its registry name, or its numeric
/// identity when the registry does not know it.
pub open spec fn tag_label_str(f: Field) -> Seq<char> {
    match spec_tag_name(f.ifd, f.tag_id) {
        Some(n) => n,
        None => "Tag("@ + dec_str(f.tag_id as nat) + ")"@,
    }
}

/// Start of the contiguous run of GPS fields that position `i` sits
/// in. One directory's fields stand contiguously, so the run bounds
/// the directory pass the field came from.
pub open spec fn gps_run_start(fields: Seq<Field>, i: int) -> int
    decreases i,
{
    if i <= 0 {
        0
    } else if fields[i - 1].ifd != IfdKind::Gps {
        i
    } else {
        gps_run_start(fields, i - 1)
    }
}

/// End (exclusive) of the contiguous run of GPS fields from `i` on.
pub open spec fn gps_run_end(fields: Seq<Field>, i: int) -> int
    decreases fields.len() - i,
{
    if i < 0 || i >= fields.len() {
        if i < 0 {
            0
        } else {
            fields.len() as int
        }
    } else if fields[i].ifd != IfdKind::Gps {
        i
    } else {
        gps_run_end(fields, i + 1)
    }
}

/// The value of the first GPS text field with tag `tag` in positions
/// `[i, end)`; used to pair a GPS coordinate with its reference from
/// the same directory pass.
pub open spec fn find_text_field(fields: Seq<Field>, i: int, end: int, tag: u16) -> Option<
    Seq<char>,
>
    decreases end - i,
{
    if i < 0 || i >= end || i >= fields.len() {
        None
    } else if fields[i].ifd == IfdKind::Gps && fields[i].tag_id == tag {
        match fields[i].value@ {
            TagValueModel::Ascii(t) => Some(t),
            _ => find_text_field(fields, i + 1, end, tag),
        }
    } else {
        find_text_field(fields, i + 1, end, tag)
    }
}

/// The display string of field `i`, unit hint and GPS reference
/// direction included.
pub open spec fn field_display_str(fields: Seq<Field>, i: int) -> Seq<char> {
    let f = fields[i];
    let base = spec_field_value_str(f.ifd, f.tag_id, f.value@);
    let with_unit = match f.unit_hint {
        Some(u) => base + seq![' '] + u@,
        None => base,
    };
    if f.ifd == IfdKind::Gps && (f.tag_id == 0x0002 || f.tag_id == 0x0004) {
        let ref_tag: u16 = if f.tag_id == 0x0002 {
            0x0001
        } else {
            0x0003
        };
        match find_text_field(fields, gps_run_start(fields, i), gps_run_end(fields, i), ref_tag) {
            Some(t) => with_unit + seq![' '] + t,
            None => with_unit,
        }
    } else {
        with_unit
    }
}

impl Field {
    /// The label this field renders under.
    pub fn tag_label(&self) -> (r: String)
        ensures
            r@ == tag_label_str(*self),
    {
        match tag_name(self.ifd, self.tag_id) {
            Some(s) => s.to_string(),
            None => {
                let head = "Tag(".to_string();
                let mid = head.concat(u64_dec(self.tag_id as u64).as_str());
                mid.concat(")")
            },
        }
    }

    /// The display string of this field's value alone, under the
    /// tag's formatting convention.
    pub fn display_value(&self) -> (r: String)
        ensures
            r@ == spec_field_value_str(self.ifd, self.tag_id, self.value@),
    {
        render_field_value(self.ifd, self.tag_id, &self.value)
    }
}

/// Find the first GPS text field with tag `tag` in the contiguous GPS
/// run around position `at`.
fn find_text(fields: &Vec<Field>, at: usize, tag: u16) -> (r: Option<String>)
    requires
        at < fields@.len(),
    ensures
        match find_text_field(
            fields@,
            gps_run_start(fields@, at as int),
            gps_run_end(fields@, at as int),
            tag,
        ) {
            Some(t) => (r matches Some(s) && s@ == t),
            None => r is None,
        },
{
    let mut start: usize = at;
    while start > 0 && matches!(fields[start - 1].ifd, IfdKind::Gps)
        invariant
            0 <= start <= at < fields@.len(),
            gps_run_start(fields@, at as int) == gps_run_start(fields@, start as int),
        decreases start,
    {
        start = start - 1;
    }
    let mut end: usize = at;
    while end < fields.len() && matches!(fields[end].ifd, IfdKind::Gps)
        invariant
            at <= end <= fields@.len(),
            gps_run_end(fields@, at as int) == gps_run_end(fields@, end as int),
        decreases fields@.len() - end,
    {
        end = end + 1;
    }
    let mut i: usize = start;
    while i < end
        invariant
            start <= i <= end <= fields@.len(),
            start as int == gps_run_start(fields@, at as int),
            end as int == gps_run_end(fields@, at as int),
            find_text_field(fields@, start as int, end as int, tag) == find_text_field(
                fields@,
                i as int,
                end as int,
                tag,
            ),
        decreases end - i,
    {
        let f = &fields[i];
        if matches!(f.ifd, IfdKind::Gps) && f.tag_id == tag {
            match &f.value {
                TagValue::Ascii(t) => {
                    return Some(t.clone());
                },
                _ => {},
            }
        }
        i = i + 1;
    }
    None
}

impl ExifDocument {
    /// The display string of field `i`, unit and GPS reference
    /// direction included.
    pub fn display_value_with_unit(&self, i: usize) -> (r: String)
        requires
            i < self.fields@.len(),
        ensures
            r@ == field_display_str(self.fields@, i as int),
    {
        proof {
            reveal_strlit(" ");
            assert((" ")@ =~= seq![' ']);
        }
        let f = &self.fields[i];
        let base = render_field_value(f.ifd, f.tag_id, &f.value);
        let mut with_unit = base;
        match &f.unit_hint {
            Some(u) => {
                with_unit.append(" ");
                with_unit.append(u.as_str());
            },
            None => {},
        }
        if matches!(f.ifd, IfdKind::Gps) && (f.tag_id == 0x0002 || f.tag_id == 0x0004) {
            let ref_tag: u16 = if f.tag_id == 0x0002 {
                0x0001
            } else {
                0x0003
            };
            match find_text(&self.fields, i, ref_tag) {
                Some(t) => {
                    with_unit.append(" ");
                    with_unit.append(t.as_str());
                },
                None => {},
            }
        }
        with_unit
    }
}

} // verus!
