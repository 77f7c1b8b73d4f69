//! The command line of a desktop entry: its space-separated tokens with the
//! file and URL field codes taken out.
use vstd::prelude::*;
use crate::text::{char_vec, split_chars, split_on};

verus! {

/// A file or URL field code: `%f`, `%F`, `%u` or `%U`. The launcher never
/// supplies files or URLs, so these tokens are dropped.
pub open spec fn is_placeholder(t: Seq<char>) -> bool {
    t.len() == 2 && t[0] == '%' && (t[1] == 'f' || t[1] == 'F' || t[1] == 'u' || t[1] == 'U')
}

/// `tokens` without the field codes, the others kept in order.
pub open spec fn strip_placeholders(tokens: Seq<Seq<char>>) -> Seq<Seq<char>>
    decreases tokens.len(),
{
    if tokens.len() == 0 {
        tokens
    } else if is_placeholder(tokens.last()) {
        strip_placeholders(tokens.drop_last())
    } else {
        strip_placeholders(tokens.drop_last()).push(tokens.last())
    }
}

/// The tokens of a command line: split on single spaces, field codes removed.
pub open spec fn command_tokens_of(exec: Seq<char>) -> Seq<Seq<char>> {
    strip_placeholders(split_on(exec, ' '))
}

/// No field code survives stripping.
pub proof fn lemma_strip_leaves_no_placeholder(tokens: Seq<Seq<char>>)
    ensures
        forall|i: int|
            0 <= i < strip_placeholders(tokens).len() ==> !is_placeholder(
                #[trigger] strip_placeholders(tokens)[i],
            ),
    decreases tokens.len(),
{
    if tokens.len() > 0 {
        lemma_strip_leaves_no_placeholder(tokens.drop_last());
        let prev = strip_placeholders(tokens.drop_last());
        assert forall|i: int|
            0 <= i < strip_placeholders(tokens).len() implies !is_placeholder(
            #[trigger] strip_placeholders(tokens)[i],
        ) by {
            if i < prev.len() {
                assert(strip_placeholders(tokens)[i] == prev[i]);
            }
        }
    }
}

/// A sequence with no field code is left unchanged by stripping.
pub proof fn lemma_strip_without_placeholders(tokens: Seq<Seq<char>>)
    requires
        forall|i: int| 0 <= i < tokens.len() ==> !is_placeholder(#[trigger] tokens[i]),
    ensures
        strip_placeholders(tokens) == tokens,
    decreases tokens.len(),
{
    if tokens.len() > 0 {
        lemma_strip_without_placeholders(tokens.drop_last());
        assert(tokens.drop_last().push(tokens.last()) =~= tokens);
    }
}

/// Stripping field codes is idempotent: stripping an already stripped token
/// list changes nothing.
pub proof fn lemma_strip_idempotent(tokens: Seq<Seq<char>>)
    ensures
        strip_placeholders(strip_placeholders(tokens)) == strip_placeholders(tokens),
{
    lemma_strip_leaves_no_placeholder(tokens);
    lemma_strip_without_placeholders(strip_placeholders(tokens));
}

/// Whether `t` is one of the file or URL field codes.
pub fn is_placeholder_token(t: &str) -> (r: bool)
    ensures
        r == is_placeholder(t@),
{
    let cs = char_vec(t);
    cs.len() == 2 && cs[0] == '%' && (cs[1] == 'f' || cs[1] == 'F' || cs[1] == 'u' || cs[1]
        == 'U')
}

/// Splits a command line on single spaces and drops the field codes.
pub fn command_tokens(exec: &str) -> (r: Vec<String>)
    ensures
        r@.map_values(|t: String| t@) == command_tokens_of(exec@),
{
    let parts = split_chars(exec, ' ');
    let ghost pv = parts@.map_values(|t: String| t@);
    let mut r: Vec<String> = Vec::new();
    let mut i: usize = 0;
    assert(pv.take(0) =~= Seq::<Seq<char>>::empty());
    assert(r@.map_values(|t: String| t@) =~= Seq::<Seq<char>>::empty());
    while i < parts.len()
        invariant
            pv == parts@.map_values(|t: String| t@),
            pv == split_on(exec@, ' '),
            i <= parts@.len(),
            r@.map_values(|t: String| t@) == strip_placeholders(pv.take(i as int)),
        decreases parts@.len() - i,
    {
        let ghost old_r = r@.map_values(|t: String| t@);
        assert(pv.take(i as int + 1).drop_last() =~= pv.take(i as int));
        assert(pv.take(i as int + 1).last() == parts@[i as int]@);
        if !is_placeholder_token(parts[i].as_str()) {
            r.push(parts[i].clone());
            assert(r@.map_values(|t: String| t@) =~= old_r.push(parts@[i as int]@));
        }
        i = i + 1;
    }
    assert(pv.take(parts@.len() as int) =~= pv);
    r
}

} // verus!
