//! The debug messages of a task.

use crate::common::{text_map_get_index, text_map_len, TextPair};
use crate::context::{Binding, Context};
use crate::utils::{render_spec, replace_placeholders, RenderError, RenderErrorModel};
use vstd::prelude::*;

verus! {

/// The models of a sequence of pairs of texts.
pub open spec fn pair_views(pairs: Seq<(String, String)>) -> Seq<TextPair> {
    Seq::new(pairs.len(), |i: int| (pairs[i].0@, pairs[i].1@))
}

/// The messages to show: each label with the expansion of its template in the context
/// `vars`, in order, or the failure of the first template that cannot be expanded.
pub open spec fn debug_spec(entries: Seq<TextPair>, vars: Seq<Binding>) -> Result<
    Seq<TextPair>,
    RenderErrorModel,
>
    decreases entries.len(),
{
    if entries.len() == 0 {
        Ok(Seq::empty())
    } else {
        match debug_spec(entries.drop_last(), vars) {
            Err(e) => Err(e),
            Ok(lines) => match render_spec(entries.last().1, vars) {
                Err(e) => Err(e),
                Ok(text) => Ok(lines.push((entries.last().0, text))),
            },
        }
    }
}

/// The model of a list of messages, or of the failure in its place.
pub open spec fn lines_view(r: Result<Vec<(String, String)>, RenderError>) -> Result<
    Seq<TextPair>,
    RenderErrorModel,
> {
    match r {
        Ok(lines) => Ok(pair_views(lines@)),
        Err(e) => Err(e@),
    }
}

/// The labels and message templates of `debug`, in order.
pub fn entries_of(debug: &crate::common::Debug) -> (entries: Vec<(String, String)>)
    ensures
        pair_views(entries@) == debug@,
{
    let n: usize = text_map_len(&debug.0);
    let mut entries: Vec<(String, String)> = Vec::new();
    let mut i: usize = 0;
    while i < n
        invariant
            n == debug@.len(),
            i <= n,
            entries@.len() == i,
            forall|k: int| 0 <= k < i ==> (#[trigger] entries@[k].0@, entries@[k].1@) == debug@[k],
        decreases n - i,
    {
        match text_map_get_index(&debug.0, i) {
            Some((label, message)) => {
                entries.push((label.clone(), message.clone()));
            },
            None => {},
        }
        i += 1;
    }
    assert(pair_views(entries@) =~= debug@);
    entries
}

/// Expands the message templates of `entries` in the context `vars`.
pub fn render_messages(entries: &Vec<(String, String)>, vars: &Context) -> (r: Result<
    Vec<(String, String)>,
    RenderError,
>)
    ensures
        lines_view(r) == debug_spec(pair_views(entries@), vars@),
{
    let ghost all = pair_views(entries@);
    let mut lines: Vec<(String, String)> = Vec::new();
    let mut i: usize = 0;
    assert(all.take(0) =~= Seq::<TextPair>::empty());
    assert(pair_views(lines@) =~= Seq::<TextPair>::empty());
    while i < entries.len()
        invariant
            i <= entries.len(),
            all == pair_views(entries@),
            debug_spec(all.take(i as int), vars@) == Ok::<Seq<TextPair>, RenderErrorModel>(
                pair_views(lines@),
            ),
        decreases entries.len() - i,
    {
        let ghost before = all.take(i as int);
        let ghost next = all.take(i + 1);
        proof {
            assert(next.drop_last() =~= before);
            assert(next.last() == all[i as int]);
        }
        match replace_placeholders(entries[i].1.as_str(), vars) {
            Ok(text) => {
                proof {
                    assert(pair_views(lines@.push((entries[i as int].0, text))) =~= pair_views(
                        lines@,
                    ).push((entries[i as int].0@, text@)));
                }
                lines.push((entries[i].0.clone(), text));
            },
            Err(e) => {
                proof {
                    lemma_debug_failure(all, (i + 1) as nat, vars@);
                    assert(all.take(entries.len() as int) =~= all);
                }
                return Err(e);
            },
        }
        i += 1;
    }
    assert(all.take(i as int) =~= all);
    Ok(lines)
}

/// A failure among the first messages is the failure of the whole list.
proof fn lemma_debug_failure(entries: Seq<TextPair>, k: nat, vars: Seq<Binding>)
    requires
        k <= entries.len(),
        debug_spec(entries.take(k as int), vars) is Err,
    ensures
        debug_spec(entries, vars) == debug_spec(entries.take(k as int), vars),
    decreases entries.len(),
{
    if k < entries.len() {
        assert(entries.drop_last().take(k as int) =~= entries.take(k as int));
        lemma_debug_failure(entries.drop_last(), k, vars);
    } else {
        assert(entries.take(k as int) =~= entries);
    }
}

/// Expands the messages of `debug` in the context `vars`: each label with its message, in
/// the order of `debug`.
pub fn process(debug: &crate::common::Debug, vars: &Context) -> (r: Result<Vec<(String, String)>, RenderError>)
    ensures
        lines_view(r) == debug_spec(debug@, vars@),
{
    let entries = entries_of(debug);
    render_messages(&entries, vars)
}

} // verus!
