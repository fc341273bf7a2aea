//! The waveform preamble: a line of comma-separated fields, five of which
//! scale the samples.

use crate::text::{chars_of, trim_bounds, trimmed};
use vstd::prelude::*;
use vstd::string::*;

verus! {

/// Fewest fields that a preamble holds.
pub const MIN_FIELDS: usize = 10;

/// Position of the time between two samples, in seconds.
pub const X_INCREMENT: usize = 4;

/// Position of the time of the first sample, in seconds.
pub const X_ORIGIN: usize = 5;

/// Position of the voltage of one digitizer count.
pub const Y_INCREMENT: usize = 7;

/// Position of the voltage offset.
pub const Y_ORIGIN: usize = 8;

/// Position of the count that stands for zero.
pub const Y_REFERENCE: usize = 9;

/// Number of characters of `s` in front of its first comma; all of them if
/// it has none.
pub open spec fn field_len(s: Seq<char>) -> nat
    decreases s.len(),
{
    if s.len() == 0 || s[0] == ',' {
        0
    } else {
        1 + field_len(s.skip(1))
    }
}

/// The parts of `s` between its commas, in order. A line without a comma is
/// one field, and so is the empty line.
pub open spec fn split_on_commas(s: Seq<char>) -> Seq<Seq<char>>
    decreases s.len(),
{
    let n = field_len(s);
    if n >= s.len() {
        seq![s]
    } else {
        seq![s.take(n as int)] + split_on_commas(s.skip(n as int + 1))
    }
}

/// Each of `parts`, trimmed.
pub open spec fn trimmed_each(parts: Seq<Seq<char>>) -> Seq<Seq<char>> {
    Seq::new(parts.len(), |i: int| trimmed(parts[i]))
}

/// The fields of a preamble line: the line is trimmed and split on commas,
/// and each part is trimmed.
pub open spec fn preamble_fields(line: Seq<char>) -> Seq<Seq<char>> {
    trimmed_each(split_on_commas(trimmed(line)))
}

/// The texts that a vector of strings holds.
pub open spec fn texts(fields: Seq<String>) -> Seq<Seq<char>> {
    fields.map_values(|f: String| f@)
}

/// Where the field that starts at `from` ends: at the next comma, or at `to`
/// if none stands in front of it.
fn field_end(chars: &[char], from: usize, to: usize) -> (end: usize)
    requires
        from <= to <= chars@.len(),
    ensures
        from <= end <= to,
        end - from == field_len(chars@.subrange(from as int, to as int)),
{
    let mut i: usize = from;
    while i < to && chars[i] != ','
        invariant
            from <= i <= to <= chars@.len(),
            field_len(chars@.subrange(from as int, to as int)) == (i - from) + field_len(
                chars@.subrange(i as int, to as int),
            ),
        decreases to - i,
    {
        assert(chars@.subrange(i as int, to as int).skip(1) =~= chars@.subrange(
            i as int + 1,
            to as int,
        ));
        i = i + 1;
    }
    i
}

/// Splits a preamble line into its fields.
///
/// Every line splits: the result holds one field more than the trimmed line
/// has commas, in the order of the line, each without the white space around
/// it. What a field holds is not looked at.
pub fn split_preamble(line: &str) -> (fields: Vec<String>)
    ensures
        texts(fields@) == preamble_fields(line@),
        fields@.len() >= 1,
{
    let chars: Vec<char> = chars_of(line);
    let (start, end) = trim_bounds(chars.as_slice());
    let mut fields: Vec<String> = Vec::new();
    let mut from: usize = start;
    assert(texts(fields@) =~= Seq::<Seq<char>>::empty());
    loop
        invariant_except_break
            start <= from <= end <= chars@.len(),
            chars@ == line@,
            chars@.subrange(start as int, end as int) == trimmed(line@),
            preamble_fields(line@) == texts(fields@) + trimmed_each(
                split_on_commas(chars@.subrange(from as int, end as int)),
            ),
        ensures
            texts(fields@) == preamble_fields(line@),
            fields@.len() >= 1,
        decreases end - from,
    {
        let stop: usize = field_end(chars.as_slice(), from, end);
        let (a, b) = trim_bounds(vstd::slice::slice_subrange(chars.as_slice(), from, stop));
        let field: String = line.substring_char(from + a, from + b).to_owned();
        proof {
            let rest = chars@.subrange(from as int, end as int);
            let part = chars@.subrange(from as int, stop as int);
            assert(rest.take(stop - from) =~= part);
            assert(field@ =~= part.subrange(a as int, b as int));
            assert(field@ == trimmed(part));
            if stop < end {
                assert(rest.skip(stop - from + 1) =~= chars@.subrange(stop as int + 1, end as int));
                assert(trimmed_each(split_on_commas(rest)) =~= seq![trimmed(part)] + trimmed_each(
                    split_on_commas(chars@.subrange(stop as int + 1, end as int)),
                ));
            } else {
                assert(rest =~= part);
                assert(trimmed_each(split_on_commas(rest)) =~= seq![trimmed(part)]);
            }
            assert(texts(fields@.push(field)) =~= texts(fields@) + seq![trimmed(part)]);
        }
        fields.push(field);
        if stop >= end {
            break;
        }
        from = stop + 1;
    }
    fields
}

/// A preamble: the fields of one preamble line, at least ten of them.
///
/// The fields are kept as the instrument wrote them. Five of them have a
/// meaning, each by its position; the others are carried and not read.
#[derive(Debug)]
pub struct Preamble {
    fields: Vec<String>,
}

impl View for Preamble {
    type V = Seq<Seq<char>>;

    closed spec fn view(&self) -> Seq<Seq<char>> {
        texts(self.fields@)
    }
}

impl Preamble {
    #[verifier::type_invariant]
    spec fn well_formed(&self) -> bool {
        self.fields@.len() >= MIN_FIELDS
    }

    /// Makes a preamble of `fields`, unless they are fewer than ten.
    pub fn from_fields(fields: Vec<String>) -> (r: Option<Preamble>)
        ensures
            r is Some <==> fields@.len() >= MIN_FIELDS,
            r matches Some(p) ==> p@ == texts(fields@),
    {
        if fields.len() < MIN_FIELDS {
            None
        } else {
            Some(Preamble { fields })
        }
    }

    /// Reads a preamble line, unless it holds fewer than ten fields.
    pub fn parse(line: &str) -> (r: Option<Preamble>)
        ensures
            r is Some <==> preamble_fields(line@).len() >= MIN_FIELDS,
            r matches Some(p) ==> p@ == preamble_fields(line@),
    {
        Preamble::from_fields(split_preamble(line))
    }

    /// Number of fields.
    pub fn len(&self) -> (n: usize)
        ensures
            n == self@.len(),
            n >= MIN_FIELDS,
    {
        proof {
            use_type_invariant(self);
        }
        self.fields.len()
    }

    /// The field at position `index`, counted from zero, if there is one.
    pub fn field(&self, index: usize) -> (r: Option<&str>)
        ensures
            r is Some <==> index < self@.len(),
            r matches Some(f) ==> f@ == self@[index as int],
    {
        if index < self.fields.len() {
            Some(self.fields[index].as_str())
        } else {
            None
        }
    }

    /// Time between two samples, in seconds: the field at position 4.
    pub fn x_increment(&self) -> (f: &str)
        ensures
            self@.len() > X_INCREMENT,
            f@ == self@[X_INCREMENT as int],
    {
        proof {
            use_type_invariant(self);
        }
        self.fields[X_INCREMENT].as_str()
    }

    /// Time of the first sample, in seconds: the field at position 5.
    pub fn x_origin(&self) -> (f: &str)
        ensures
            self@.len() > X_ORIGIN,
            f@ == self@[X_ORIGIN as int],
    {
        proof {
            use_type_invariant(self);
        }
        self.fields[X_ORIGIN].as_str()
    }

    /// Voltage of one digitizer count: the field at position 7.
    pub fn y_increment(&self) -> (f: &str)
        ensures
            self@.len() > Y_INCREMENT,
            f@ == self@[Y_INCREMENT as int],
    {
        proof {
            use_type_invariant(self);
        }
        self.fields[Y_INCREMENT].as_str()
    }

    /// Voltage offset: the field at position 8.
    pub fn y_origin(&self) -> (f: &str)
        ensures
            self@.len() > Y_ORIGIN,
            f@ == self@[Y_ORIGIN as int],
    {
        proof {
            use_type_invariant(self);
        }
        self.fields[Y_ORIGIN].as_str()
    }

    /// Count that stands for zero volts: the field at position 9.
    pub fn y_reference(&self) -> (f: &str)
        ensures
            self@.len() > Y_REFERENCE,
            f@ == self@[Y_REFERENCE as int],
    {
        proof {
            use_type_invariant(self);
        }
        self.fields[Y_REFERENCE].as_str()
    }
}

/// A field ends at the first comma or at the end of the line, and holds no
/// comma itself.
pub proof fn lemma_field_len_bound(s: Seq<char>)
    ensures
        field_len(s) <= s.len(),
        forall|i: int| 0 <= i < field_len(s) ==> s[i] != ',',
        field_len(s) < s.len() ==> s[field_len(s) as int] == ',',
    decreases s.len(),
{
    if s.len() == 0 || s[0] == ',' {
    } else {
        lemma_field_len_bound(s.skip(1));
        assert forall|i: int| 0 <= i < field_len(s) implies s[i] != ',' by {
            if i > 0 {
                assert(s[i] == s.skip(1)[i - 1]);
            }
        }
        if field_len(s) < s.len() {
            assert(s[field_len(s) as int] == s.skip(1)[field_len(s.skip(1)) as int]);
        }
    }
}

/// A line splits into one field more than it has commas.
pub proof fn lemma_split_count(s: Seq<char>)
    ensures
        split_on_commas(s).len() == 1 + s.filter(|c: char| c == ',').len(),
        split_on_commas(s).len() >= 1,
    decreases s.len(),
{
    let is_comma = |c: char| c == ',';
    let n = field_len(s);
    lemma_field_len_bound(s);
    lemma_no_comma_filter(s.take(n as int));
    if n >= s.len() {
        assert(s.take(n as int) =~= s);
    } else {
        let rest = s.skip(n as int + 1);
        lemma_split_count(rest);
        assert(s =~= (s.take(n as int) + seq![s[n as int]]) + rest);
        Seq::filter_distributes_over_add(s.take(n as int) + seq![s[n as int]], rest, is_comma);
        Seq::filter_distributes_over_add(s.take(n as int), seq![s[n as int]], is_comma);
        reveal_with_fuel(Seq::filter, 2);
        assert(seq![s[n as int]].filter(is_comma) =~= seq![s[n as int]]) by {
            assert(seq![s[n as int]].drop_last() =~= Seq::<char>::empty());
        }
    }
}

/// A text without a comma keeps nothing when only its commas are kept.
proof fn lemma_no_comma_filter(s: Seq<char>)
    requires
        forall|i: int| 0 <= i < s.len() ==> s[i] != ',',
    ensures
        s.filter(|c: char| c == ',').len() == 0,
    decreases s.len(),
{
    reveal(Seq::filter);
    if s.len() > 0 {
        lemma_no_comma_filter(s.drop_last());
    }
}

/// The parts of `parts` with a comma between each two.
pub open spec fn joined_with_commas(parts: Seq<Seq<char>>) -> Seq<char>
    decreases parts.len(),
{
    if parts.len() == 0 {
        Seq::empty()
    } else if parts.len() == 1 {
        parts[0]
    } else {
        parts[0] + seq![','] + joined_with_commas(parts.skip(1))
    }
}

/// Splitting loses nothing: no part holds a comma, and the parts with commas
/// put back between them are the line.
pub proof fn lemma_split_then_join(s: Seq<char>)
    ensures
        joined_with_commas(split_on_commas(s)) == s,
        forall|k: int, i: int|
            0 <= k < split_on_commas(s).len() && 0 <= i < split_on_commas(s)[k].len()
                ==> #[trigger] split_on_commas(s)[k][i] != ',',
    decreases s.len(),
{
    let n = field_len(s);
    lemma_field_len_bound(s);
    if n >= s.len() {
        assert(split_on_commas(s) =~= seq![s]);
    } else {
        let head = s.take(n as int);
        let rest = s.skip(n as int + 1);
        lemma_split_then_join(rest);
        lemma_split_count(rest);
        let parts = split_on_commas(s);
        assert(parts.skip(1) =~= split_on_commas(rest));
        assert(parts[0] == head);
        assert(s =~= head + seq![','] + rest);
        assert forall|k: int, i: int|
            0 <= k < parts.len() && 0 <= i < parts[k].len() implies #[trigger] parts[k][i]
            != ',' by {
            if k > 0 {
                assert(parts[k] == split_on_commas(rest)[k - 1]);
            }
        }
    }
}

} // verus!
