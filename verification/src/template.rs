//! Literal `{key}` substitution over a manifest template.

use vstd::prelude::*;
use crate::text::{extend_chars, from_chars, matches_at, occurs_at, to_chars};

verus! {

/// `s` with every occurrence of the non-empty pattern `from` replaced by
/// `to`. Occurrences are found from left to right and do not overlap; what
/// was put in is not searched again.
pub open spec fn replace_all(s: Seq<char>, from: Seq<char>, to: Seq<char>) -> Seq<char>
    decreases s.len(),
{
    if from.len() == 0 || s.len() < from.len() {
        s
    } else if occurs_at(s, from, 0) {
        to + replace_all(s.skip(from.len() as int), from, to)
    } else {
        seq![s[0]] + replace_all(s.skip(1), from, to)
    }
}

/// The placeholder that stands for `key` in a template: the key in braces.
pub open spec fn placeholder(key: Seq<char>) -> Seq<char> {
    seq!['{'] + key + seq!['}']
}

/// The template after the substitutions of `values`, made one after the
/// other in the order of the list: each replaces every placeholder of its
/// key in what the substitutions before it left.
pub open spec fn render_spec(template: Seq<char>, values: Seq<(Seq<char>, Seq<char>)>) -> Seq<
    char,
>
    decreases values.len(),
{
    if values.len() == 0 {
        template
    } else {
        replace_all(
            render_spec(template, values.drop_last()),
            placeholder(values.last().0),
            values.last().1,
        )
    }
}

/// The keys and values of a substitution list as plain text.
pub open spec fn values_view(values: Seq<(String, String)>) -> Seq<(Seq<char>, Seq<char>)> {
    Seq::new(values.len(), |i: int| (values[i].0@, values[i].1@))
}

/// `s` with every occurrence of `from` replaced by `to`.
pub fn replace_chars(s: &Vec<char>, from: &Vec<char>, to: &Vec<char>) -> (out: Vec<char>)
    requires
        from@.len() > 0,
    ensures
        out@ == replace_all(s@, from@, to@),
{
    let mut out: Vec<char> = Vec::new();
    let mut i: usize = 0;
    proof {
        assert(s@.skip(0) =~= s@);
    }
    while i < s.len()
        invariant
            i <= s.len(),
            from@.len() > 0,
            replace_all(s@, from@, to@) == out@ + replace_all(s@.skip(i as int), from@, to@),
        decreases s.len() - i,
    {
        let ghost rest = s@.skip(i as int);
        let ghost before = out@;
        let hit = matches_at(s, from, i);
        proof {
            if from@.len() <= rest.len() {
                assert(rest.subrange(0, from@.len() as int) =~= s@.subrange(
                    i as int,
                    i + from@.len(),
                ));
            }
            assert(hit == (from@.len() <= rest.len() && occurs_at(rest, from@, 0)));
        }
        if hit {
            extend_chars(&mut out, to);
            proof {
                assert(rest.skip(from@.len() as int) =~= s@.skip(i + from@.len()));
                assert(before + (to@ + replace_all(s@.skip(i + from@.len()), from@, to@)) =~= out@
                    + replace_all(s@.skip(i + from@.len()), from@, to@));
            }
            i += from.len();
        } else {
            out.push(s[i]);
            proof {
                assert(rest.skip(1) =~= s@.skip(i + 1));
                if rest.len() < from@.len() {
                    lemma_short_text_unchanged(rest, from@, to@);
                    lemma_short_text_unchanged(s@.skip(i + 1), from@, to@);
                    assert(rest =~= seq![rest[0]] + s@.skip(i + 1));
                }
                assert(before + (seq![rest[0]] + replace_all(s@.skip(i + 1), from@, to@)) =~= out@
                    + replace_all(s@.skip(i + 1), from@, to@));
            }
            i += 1;
        }
    }
    proof {
        assert(s@.skip(i as int) =~= Seq::<char>::empty());
        assert(out@ + Seq::<char>::empty() =~= out@);
    }
    out
}

/// A text shorter than the pattern holds no occurrence of it and stays as it
/// is.
pub proof fn lemma_short_text_unchanged(s: Seq<char>, from: Seq<char>, to: Seq<char>)
    requires
        s.len() < from.len(),
    ensures
        replace_all(s, from, to) == s,
{
}

/// Replaces each `{key}` of `template` by the value listed for `key`. The
/// substitution is literal: no escaping, no nesting, no other syntax. The
/// pairs are applied one after the other, in the order of the list.
pub fn render_json_template(template: &str, values: &Vec<(String, String)>) -> (rendered: String)
    ensures
        rendered@ == render_spec(template@, values_view(values@)),
{
    let mut current = to_chars(template);
    let mut i: usize = 0;
    let ghost all = values_view(values@);
    proof {
        assert(all.subrange(0, 0) =~= Seq::<(Seq<char>, Seq<char>)>::empty());
    }
    while i < values.len()
        invariant
            i <= values.len(),
            all == values_view(values@),
            current@ == render_spec(template@, all.subrange(0, i as int)),
        decreases values.len() - i,
    {
        let mut pattern: Vec<char> = Vec::new();
        pattern.push('{');
        let key = to_chars(values[i].0.as_str());
        extend_chars(&mut pattern, &key);
        pattern.push('}');
        let value = to_chars(values[i].1.as_str());
        proof {
            assert(pattern@ =~= placeholder(all[i as int].0));
            let upto = all.subrange(0, i + 1);
            assert(upto.drop_last() =~= all.subrange(0, i as int));
            assert(upto.last() == all[i as int]);
        }
        current = replace_chars(&current, &pattern, &value);
        i += 1;
    }
    proof {
        assert(all.subrange(0, values.len() as int) =~= all);
    }
    from_chars(&current)
}

} // verus!
