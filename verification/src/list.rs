//! Lists of texts as an argument gives them: separated by commas, with
//! white space around each entry that does not count.

use vstd::prelude::*;
use vstd::string::StrSliceExecFns;
use crate::text::texts_view;

verus! {

/// Whether the character is white space, as Unicode's property `White_Space`
/// has it.
pub open spec fn is_space(c: char) -> bool {
    let n = c as u32;
    (0x09 <= n <= 0x0d) || n == 0x20 || n == 0x85 || n == 0xa0 || n == 0x1680 || (0x2000 <= n
        <= 0x200a) || n == 0x2028 || n == 0x2029 || n == 0x202f || n == 0x205f || n == 0x3000
}

/// How many characters of white space the text begins with.
pub open spec fn leading_space(s: Seq<char>) -> int
    decreases s.len(),
{
    if s.len() == 0 || !is_space(s[0]) {
        0
    } else {
        1 + leading_space(s.drop_first())
    }
}

/// How many characters of white space the text ends in.
pub open spec fn trailing_space(s: Seq<char>) -> int
    decreases s.len(),
{
    if s.len() == 0 || !is_space(s.last()) {
        0
    } else {
        1 + trailing_space(s.drop_last())
    }
}

/// The text without the white space at its start and at its end.
pub open spec fn trimmed(s: Seq<char>) -> Seq<char> {
    let rest = s.skip(leading_space(s));
    rest.take(rest.len() - trailing_space(rest))
}

/// Where the first comma stands; the text's length where it has none.
pub open spec fn first_comma(s: Seq<char>) -> int
    decreases s.len(),
{
    if s.len() == 0 || s[0] == ',' {
        0
    } else {
        1 + first_comma(s.drop_first())
    }
}

/// The parts of the text between its commas: one more than there are
/// commas.
pub open spec fn split_commas(s: Seq<char>) -> Seq<Seq<char>>
    decreases s.len(),
{
    let at = first_comma(s);
    if 0 <= at < s.len() {
        seq![s.take(at)] + split_commas(s.skip(at + 1))
    } else {
        seq![s]
    }
}

/// The entries of a list that is separated by commas, each without the
/// white space around it.
pub open spec fn comma_separated(s: Seq<char>) -> Seq<Seq<char>> {
    split_commas(s).map_values(|part: Seq<char>| trimmed(part))
}

/// The first comma is where a comma stands with none before it.
proof fn lemma_first_comma_is(s: Seq<char>, at: int)
    requires
        0 <= at <= s.len(),
        forall|i: int| 0 <= i < at ==> s[i] != ',',
        at < s.len() ==> s[at] == ',',
    ensures
        first_comma(s) == at,
    decreases s.len(),
{
    if s.len() > 0 && s[0] != ',' {
        let rest = s.drop_first();
        assert forall|i: int| 0 <= i < at - 1 implies rest[i] != ',' by {
            assert(rest[i] == s[i + 1]);
        }
        lemma_first_comma_is(rest, at - 1);
    }
}

fn is_space_char(c: char) -> (b: bool)
    ensures
        b == is_space(c),
{
    let n: u32 = c as u32;
    (0x09 <= n && n <= 0x0d) || n == 0x20 || n == 0x85 || n == 0xa0 || n == 0x1680 || (0x2000 <= n
        && n <= 0x200a) || n == 0x2028 || n == 0x2029 || n == 0x202f || n == 0x205f || n == 0x3000
}

/// The part of the text from `from` up to `to`, counted in characters,
/// without the white space around it.
fn trimmed_part(s: &str, from: usize, to: usize) -> (part: String)
    requires
        from <= to <= s@.len(),
    ensures
        part@ == trimmed(s@.subrange(from as int, to as int)),
{
    let ghost whole = s@.subrange(from as int, to as int);
    let mut start: usize = from;
    proof {
        assert(whole.skip(0) =~= whole);
    }
    while start < to && is_space_char(s.get_char(start))
        invariant
            from <= start <= to <= s@.len(),
            whole == s@.subrange(from as int, to as int),
            leading_space(whole) == (start - from) + leading_space(whole.skip(start - from)),
        decreases to - start,
    {
        proof {
            let rest = whole.skip(start - from);
            assert(rest[0] == s@[start as int]);
            assert(rest.drop_first() =~= whole.skip(start - from + 1));
        }
        start += 1;
    }
    let ghost rest = whole.skip(start - from);
    proof {
        if start < to {
            assert(rest[0] == s@[start as int]);
        }
        assert(leading_space(whole) == start - from);
        assert(rest.take(rest.len() as int) =~= rest);
    }
    let mut end: usize = to;
    while end > start && is_space_char(s.get_char(end - 1))
        invariant
            from <= start <= end <= to <= s@.len(),
            rest == s@.subrange(start as int, to as int),
            trailing_space(rest) == (to - end) + trailing_space(rest.take(end - start)),
        decreases end - start,
    {
        proof {
            let shorter = rest.take(end - start);
            assert(shorter.last() == s@[end - 1]);
            assert(shorter.drop_last() =~= rest.take(end - start - 1));
        }
        end -= 1;
    }
    proof {
        let shorter = rest.take(end - start);
        if end > start {
            assert(shorter.last() == s@[end - 1]);
        }
        assert(trailing_space(rest) == to - end);
        assert(s@.subrange(start as int, end as int) =~= rest.take(rest.len() - trailing_space(rest)));
    }
    s.substring_char(start, end).to_owned()
}

/// The entries of a list that is separated by commas.
pub fn parse_comma_separated(arg: &str) -> (entries: Vec<String>)
    ensures
        texts_view(entries@) == comma_separated(arg@),
{
    let len: usize = arg.unicode_len();
    let mut entries: Vec<String> = Vec::new();
    let mut start: usize = 0;
    let mut i: usize = 0;
    proof {
        assert(arg@.skip(0) =~= arg@);
        assert(texts_view(entries@) + comma_separated(arg@) =~= comma_separated(arg@));
    }
    while i < len
        invariant
            start <= i <= len == arg@.len(),
            forall|j: int| start <= j < i ==> arg@[j] != ',',
            comma_separated(arg@) == texts_view(entries@) + comma_separated(
                arg@.skip(start as int),
            ),
        decreases len - i,
    {
        if arg.get_char(i) == ',' {
            let ghost before = texts_view(entries@);
            let ghost rest = arg@.skip(start as int);
            entries.push(trimmed_part(arg, start, i));
            proof {
                assert forall|j: int| 0 <= j < i - start implies rest[j] != ',' by {
                    assert(rest[j] == arg@[start + j]);
                }
                lemma_first_comma_is(rest, i - start);
                assert(rest.take(i - start) =~= arg@.subrange(start as int, i as int));
                assert(rest.skip(i - start + 1) =~= arg@.skip(i + 1));
                assert(split_commas(rest) == seq![rest.take(i - start)] + split_commas(
                    arg@.skip(i + 1),
                ));
                assert(comma_separated(rest) =~= seq![trimmed(rest.take(i - start))]
                    + comma_separated(arg@.skip(i + 1)));
                assert(texts_view(entries@) =~= before.push(trimmed(rest.take(i - start))));
                assert(comma_separated(arg@) =~= texts_view(entries@) + comma_separated(
                    arg@.skip(i + 1),
                ));
            }
            start = i + 1;
        }
        i += 1;
    }
    let ghost before = texts_view(entries@);
    let ghost rest = arg@.skip(start as int);
    entries.push(trimmed_part(arg, start, len));
    proof {
        assert forall|j: int| 0 <= j < len - start implies rest[j] != ',' by {
            assert(rest[j] == arg@[start + j]);
        }
        lemma_first_comma_is(rest, len - start);
        assert(rest =~= arg@.subrange(start as int, len as int));
        assert(split_commas(rest) == seq![rest]);
        assert(comma_separated(rest) =~= seq![trimmed(rest)]);
        assert(texts_view(entries@) =~= before.push(trimmed(rest)));
    }
    entries
}

} // verus!
