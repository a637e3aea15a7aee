//! Normalization of the free-text console inputs: one trailing line ending is
//! stripped, space characters are removed, and the text is split on commas
//! into an ordered list of tokens. The save-to-file answer is classified here
//! as well.

use vstd::prelude::*;
use vstd::string::StrSliceExecFns;
use vstd::string::StringExecFns;
use crate::strutil::push_char;
use crate::strutil::str_eq;

verus! {

/// One trailing newline removed, if present.
pub open spec fn strip_newline(s: Seq<char>) -> Seq<char> {
    if s.len() > 0 && s.last() == '\n' {
        s.drop_last()
    } else {
        s
    }
}

/// One trailing carriage return removed, if present.
pub open spec fn strip_carriage_return(s: Seq<char>) -> Seq<char> {
    if s.len() > 0 && s.last() == '\r' {
        s.drop_last()
    } else {
        s
    }
}

/// A single trailing line ending (`\n`, `\r\n` or a bare `\r`) removed.
pub open spec fn strip_line_ending_spec(s: Seq<char>) -> Seq<char> {
    strip_carriage_return(strip_newline(s))
}

/// Every space character removed; all other characters kept in order.
pub open spec fn remove_spaces_spec(s: Seq<char>) -> Seq<char> {
    s.filter(|c: char| c != ' ')
}

/// The comma-separated tokens of `s`, in order. Splitting the empty text
/// yields one empty token; doubled commas yield empty tokens, unfiltered.
pub open spec fn split_commas_spec(s: Seq<char>) -> Seq<Seq<char>>
    decreases s.len(),
{
    if s.len() == 0 {
        seq![Seq::<char>::empty()]
    } else {
        let prev = split_commas_spec(s.drop_last());
        if s.last() == ',' {
            prev.push(Seq::<char>::empty())
        } else {
            prev.update(prev.len() - 1, prev.last().push(s.last()))
        }
    }
}

/// The full normalization applied to a raw input line.
pub open spec fn normalize_list_spec(s: Seq<char>) -> Seq<Seq<char>> {
    split_commas_spec(remove_spaces_spec(strip_line_ending_spec(s)))
}

pub proof fn lemma_split_commas_nonempty(s: Seq<char>)
    ensures
        split_commas_spec(s).len() >= 1,
    decreases s.len(),
{
    if s.len() > 0 {
        lemma_split_commas_nonempty(s.drop_last());
    }
}

pub fn strip_line_ending(s: &str) -> (r: String)
    ensures
        r@ == strip_line_ending_spec(s@),
{
    let n: usize = s.unicode_len();
    let mut end: usize = n;
    if end > 0 && s.get_char(end - 1) == '\n' {
        end = end - 1;
    }
    if end > 0 && s.get_char(end - 1) == '\r' {
        end = end - 1;
    }
    let r: &str = s.substring_char(0, end);
    proof {
        assert(strip_newline(s@) =~= s@.subrange(
            0,
            if s@.len() > 0 && s@.last() == '\n' {
                s@.len() - 1
            } else {
                s@.len() as int
            },
        ));
        assert(r@ =~= strip_line_ending_spec(s@));
    }
    r.to_owned()
}

pub fn remove_spaces(s: &str) -> (r: String)
    ensures
        r@ == remove_spaces_spec(s@),
{
    let n: usize = s.unicode_len();
    let mut out: String = String::new();
    let mut i: usize = 0;
    while i < n
        invariant
            i <= n,
            n == s@.len(),
            out@ == remove_spaces_spec(s@.subrange(0, i as int)),
        decreases n - i,
    {
        let c: char = s.get_char(i);
        if c != ' ' {
            push_char(&mut out, c);
        }
        proof {
            reveal(Seq::filter);
            assert(s@.subrange(0, i + 1).drop_last() =~= s@.subrange(0, i as int));
            assert(s@.subrange(0, i + 1).last() == s@[i as int]);
        }
        i = i + 1;
    }
    proof {
        assert(s@.subrange(0, n as int) =~= s@);
    }
    out
}

pub fn split_commas(s: &str) -> (r: Vec<String>)
    ensures
        r.deep_view() == split_commas_spec(s@),
{
    let n: usize = s.unicode_len();
    let mut out: Vec<String> = Vec::new();
    let mut cur: String = String::new();
    let mut i: usize = 0;
    proof {
        assert(out.deep_view().push(cur@) =~~= split_commas_spec(s@.subrange(0, 0)));
    }
    while i < n
        invariant
            i <= n,
            n == s@.len(),
            out.deep_view().push(cur@) == split_commas_spec(s@.subrange(0, i as int)),
        decreases n - i,
    {
        let ghost prev_out = out.deep_view();
        let ghost prev_cur = cur@;
        let c: char = s.get_char(i);
        if c == ',' {
            out.push(cur);
            cur = String::new();
        } else {
            push_char(&mut cur, c);
        }
        proof {
            assert(s@.subrange(0, i + 1).drop_last() =~= s@.subrange(0, i as int));
            assert(s@.subrange(0, i + 1).last() == s@[i as int]);
            let prev = split_commas_spec(s@.subrange(0, i as int));
            lemma_split_commas_nonempty(s@.subrange(0, i as int));
            if c == ',' {
                assert(out.deep_view() =~~= prev_out.push(prev_cur));
                assert(out.deep_view().push(cur@) =~~= prev.push(Seq::<char>::empty()));
            } else {
                assert(prev.update(prev.len() - 1, prev.last().push(c)) =~~= prev_out.push(
                    prev_cur.push(c),
                ));
                assert(out.deep_view().push(cur@) =~~= prev_out.push(prev_cur.push(c)));
            }
        }
        i = i + 1;
    }
    out.push(cur);
    proof {
        assert(s@.subrange(0, n as int) =~= s@);
        assert(out.deep_view() =~~= split_commas_spec(s@));
    }
    out
}

/// A raw input line normalized into its ordered token list.
pub fn normalize_list(s: &str) -> (r: Vec<String>)
    ensures
        r.deep_view() == normalize_list_spec(s@),
{
    let stripped: String = strip_line_ending(s);
    let no_spaces: String = remove_spaces(stripped.as_str());
    split_commas(no_spaces.as_str())
}

/// Whether a loaded credential can be used: the loader hands back an empty
/// string as its failure sentinel, and the run must end before any request
/// is sent when it does.
pub fn credential_usable(key: &str) -> (r: bool)
    ensures
        r == (key@.len() != 0),
{
    key.unicode_len() != 0
}

/// The answer to the save-to-file question. `Invalid` is reported as a
/// warning by the caller and then treated like `Skip`.
#[derive(Clone, Copy, Debug, PartialEq, Eq, Structural)]
pub enum SaveChoice {
    Save,
    Skip,
    Invalid,
}

/// `y`/`Y` save; `n`/`N` or an empty answer skip; anything else is invalid.
pub open spec fn save_choice_spec(s: Seq<char>) -> SaveChoice {
    if s == "y"@ || s == "Y"@ {
        SaveChoice::Save
    } else if s == "n"@ || s == "N"@ || s == Seq::<char>::empty() {
        SaveChoice::Skip
    } else {
        SaveChoice::Invalid
    }
}

pub fn parse_save_choice(s: &str) -> (r: SaveChoice)
    ensures
        r == save_choice_spec(s@),
{
    if str_eq(s, "y") || str_eq(s, "Y") {
        SaveChoice::Save
    } else if str_eq(s, "n") || str_eq(s, "N") || s.unicode_len() == 0 {
        proof {
            if s@.len() == 0 {
                assert(s@ =~= Seq::<char>::empty());
            }
        }
        SaveChoice::Skip
    } else {
        proof {
            assert(s@.len() != 0);
            if s@ == Seq::<char>::empty() {
                assert(s@.len() == 0);
            }
        }
        SaveChoice::Invalid
    }
}

} // verus!
