use vstd::prelude::*;
use vstd::string::StrSliceExecFns;

verus! {

/// `s` with its leading and trailing whitespace removed.
pub uninterp spec fn trim_of(s: Seq<char>) -> Seq<char>;

/// Relies on `str::trim`: the input without its leading and trailing
/// whitespace, which depends on the characters alone.
#[verifier::external_body]
fn trim(s: &str) -> (r: String)
    ensures
        r@ == trim_of(s@),
{
    s.trim().to_string()
}

/// The pieces of `s` between commas, in order. Empty pieces are kept: an
/// empty input gives one empty piece, and a trailing comma an empty last one.
pub open spec fn split_commas(s: Seq<char>) -> Seq<Seq<char>>
    decreases s.len(),
{
    if s.len() == 0 {
        seq![Seq::empty()]
    } else {
        let pieces = split_commas(s.drop_last());
        if s.last() == ',' {
            pieces.push(Seq::empty())
        } else {
            pieces.update(pieces.len() - 1, pieces.last().push(s.last()))
        }
    }
}

pub proof fn lemma_split_commas_nonempty(s: Seq<char>)
    ensures
        split_commas(s).len() >= 1,
    decreases s.len(),
{
    if s.len() > 0 {
        lemma_split_commas_nonempty(s.drop_last());
    }
}

/// Each piece of `s` between commas, trimmed.
pub open spec fn commands_spec(s: Seq<char>) -> Seq<Seq<char>> {
    split_commas(s).map_values(|p: Seq<char>| trim_of(p))
}

/// Splits a comma-separated list of command lines and trims each one. Empty
/// pieces are kept, so `"a,"` gives `"a"` and an empty command.
pub fn split_commands(input: &str) -> (r: Vec<String>)
    ensures
        r.deep_view() == commands_spec(input@),
{
    let n = input.unicode_len();
    let mut out: Vec<String> = Vec::new();
    let mut start: usize = 0;
    let mut i: usize = 0;
    while i < n
        invariant
            n == input@.len(),
            start <= i <= n,
            split_commas(input@.subrange(0, i as int)).len() >= 1,
            out.deep_view() == split_commas(input@.subrange(0, i as int)).drop_last().map_values(
                |p: Seq<char>| trim_of(p),
            ),
            split_commas(input@.subrange(0, i as int)).last() == input@.subrange(
                start as int,
                i as int,
            ),
        decreases n - i,
    {
        let c = input.get_char(i);
        let ghost pre = input@.subrange(0, i as int);
        let ghost next = input@.subrange(0, i + 1);
        proof {
            assert(next.drop_last() =~= pre);
            assert(next.last() == c);
            lemma_split_commas_nonempty(next);
        }
        if c == ',' {
            let piece = trim(input.substring_char(start, i));
            let ghost prev = out.deep_view();
            out.push(piece);
            proof {
                assert(out.deep_view() =~= prev.push(trim_of(input@.subrange(start as int, i as int))));
                assert(split_commas(next).drop_last() =~= split_commas(pre));
                assert(split_commas(pre) =~= split_commas(pre).drop_last().push(split_commas(pre).last()));
                assert(split_commas(next).drop_last().map_values(|p: Seq<char>| trim_of(p))
                    =~= out.deep_view());
                assert(split_commas(next).last() =~= input@.subrange(i + 1, i + 1));
            }
            start = i + 1;
        } else {
            proof {
                assert(split_commas(next).drop_last() =~= split_commas(pre).drop_last());
                assert(split_commas(next).last() =~= input@.subrange(start as int, i + 1));
            }
        }
        i = i + 1;
    }
    let last = trim(input.substring_char(start, n));
    let ghost prev = out.deep_view();
    out.push(last);
    proof {
        let all = split_commas(input@.subrange(0, n as int));
        assert(out.deep_view() =~= prev.push(trim_of(input@.subrange(start as int, n as int))));
        assert(input@.subrange(0, n as int) =~= input@);
        assert(all =~= all.drop_last().push(all.last()));
        assert(out.deep_view() =~= all.map_values(|p: Seq<char>| trim_of(p)));
    }
    out
}

} // verus!
