//! Which emails never received a reply: the flat correlation over
//! `in_reply_to`, and the one over thread trees.
use vstd::prelude::*;
use crate::email::Email;
use crate::ids::{stripped, strip_angle_brackets, IdSet};
use crate::thread::ThreadStruct;

verus! {

/// Whether a subject starts with the reply marker `"Re: "`.
pub open spec fn has_reply_marker(subject: Seq<char>) -> bool {
    subject.len() >= 4 && subject.subrange(0, 4) == seq!['R', 'e', ':', ' ']
}

/// Whether `subject` starts with the reply marker `"Re: "`.
pub fn starts_with_reply_marker(subject: &str) -> (r: bool)
    ensures
        r == has_reply_marker(subject@),
{
    let n = subject.unicode_len();
    if n < 4 {
        return false;
    }
    let r = subject.get_char(0) == 'R' && subject.get_char(1) == 'e' && subject.get_char(2) == ':'
        && subject.get_char(3) == ' ';
    proof {
        let marker = seq!['R', 'e', ':', ' '];
        if r {
            assert(subject@.subrange(0, 4) =~= marker);
        } else {
            assert(subject@.subrange(0, 4) != marker) by {
                if subject@.subrange(0, 4) == marker {
                    assert(subject@[0] == subject@.subrange(0, 4)[0]);
                    assert(subject@[1] == subject@.subrange(0, 4)[1]);
                    assert(subject@[2] == subject@.subrange(0, 4)[2]);
                    assert(subject@[3] == subject@.subrange(0, 4)[3]);
                }
            }
        }
    }
    r
}

/// An email is a reply when its subject carries the reply marker or when it
/// names a parent in `in_reply_to`.
pub open spec fn is_reply(e: Email) -> bool {
    has_reply_marker(e.subject@) || e.in_reply_to@.len() > 0
}

/// Whether `e` answers the message whose normalised identifier is `id`.
pub open spec fn answers(e: Email, id: Seq<char>) -> bool {
    e.in_reply_to@.len() > 0 && stripped(e.in_reply_to@) == id
}

/// The normalised identifiers of the messages that some email of `emails`
/// answers.
pub open spec fn replied_ids(emails: Seq<Email>) -> Set<Seq<char>> {
    Set::new(|id: Seq<char>| exists|i: int| 0 <= i < emails.len() && #[trigger] answers(emails[i], id))
}

/// An email is unanswered when it is not itself a reply and its normalised
/// `message_id` is not among the `replied` identifiers.
pub open spec fn is_unanswered(e: Email, replied: Set<Seq<char>>) -> bool {
    !is_reply(e) && !replied.contains(stripped(e.message_id@))
}

/// The selection test of the flat correlation, given the `replied`
/// identifiers.
pub open spec fn unanswered_given(replied: Set<Seq<char>>) -> spec_fn(Email) -> bool {
    |e: Email| is_unanswered(e, replied)
}

/// The selection test of the flat correlation over `emails`.
pub open spec fn unanswered_in(emails: Seq<Email>) -> spec_fn(Email) -> bool {
    unanswered_given(replied_ids(emails))
}

/// The unanswered emails of `emails`, in their order.
pub open spec fn unanswered_emails(emails: Seq<Email>) -> Seq<Email> {
    emails.filter(unanswered_in(emails))
}

/// The emails that `refs` points at.
pub open spec fn targets(refs: Seq<&Email>) -> Seq<Email> {
    refs.map_values(|r: &Email| *r)
}

/// The normalised identifiers of all messages that received a reply: the
/// parent named by every email whose `in_reply_to` is not empty.
pub fn replied_to_ids(emails: &[Email]) -> (r: IdSet)
    ensures
        r@ == replied_ids(emails@),
{
    let mut r = IdSet::new();
    let mut i: usize = 0;
    while i < emails.len()
        invariant
            i <= emails.len(),
            r@ == replied_ids(emails@.take(i as int)),
        decreases emails.len() - i,
    {
        let e = &emails[i];
        let ghost before = r@;
        if !e.in_reply_to.as_str().is_empty() {
            let parent = strip_angle_brackets(e.in_reply_to.as_str());
            r.insert(parent);
        }
        proof {
            let next = emails@.take(i + 1);
            let prev = emails@.take(i as int);
            assert forall|id: Seq<char>| r@.contains(id) <==> replied_ids(next).contains(id) by {
                if r@.contains(id) {
                    if before.contains(id) {
                        let j = choose|j: int| 0 <= j < prev.len() && #[trigger] answers(prev[j], id);
                        assert(next[j] == prev[j]);
                    } else {
                        assert(next[i as int] == emails@[i as int]);
                        assert(answers(next[i as int], id));
                    }
                }
                if replied_ids(next).contains(id) {
                    let j = choose|j: int| 0 <= j < next.len() && #[trigger] answers(next[j], id);
                    if j < i {
                        assert(prev[j] == next[j]);
                        assert(replied_ids(prev).contains(id));
                    }
                }
            }
            assert(r@ =~= replied_ids(next));
        }
        i += 1;
    }
    assert(emails@.take(emails.len() as int) =~= emails@);
    r
}

/// The emails of `emails` that are no reply and whose normalised
/// `message_id` is not among the `replied` identifiers, in their order.
pub fn select_unanswered<'a>(emails: &'a [Email], replied: &IdSet) -> (r: Vec<&'a Email>)
    ensures
        targets(r@) == emails@.filter(unanswered_given(replied@)),
{
    let ghost keep = unanswered_given(replied@);
    let mut out: Vec<&Email> = Vec::new();
    let mut i: usize = 0;
    while i < emails.len()
        invariant
            i <= emails.len(),
            keep == unanswered_given(replied@),
            targets(out@) == emails@.take(i as int).filter(keep),
        decreases emails.len() - i,
    {
        let e = &emails[i];
        let selected = if starts_with_reply_marker(e.subject.as_str()) || !e.in_reply_to.as_str().is_empty() {
            false
        } else {
            let id = strip_angle_brackets(e.message_id.as_str());
            !replied.contains(&id)
        };
        proof {
            reveal(Seq::filter);
            assert(emails@.take(i + 1).drop_last() =~= emails@.take(i as int));
            assert(emails@.take(i + 1).last() == emails@[i as int]);
            assert(selected == keep(emails@[i as int]));
        }
        let ghost prev = out@;
        if selected {
            out.push(e);
            assert(targets(out@) =~= targets(prev).push(*e));
        }
        i += 1;
    }
    assert(emails@.take(emails.len() as int) =~= emails@);
    out
}

/// The emails that start a thread and never received a reply, in their
/// order: neither carries the reply marker nor names a parent, and no
/// email of `emails` names it as its parent.
pub fn find_unanswered_emails(emails: &[Email]) -> (r: Vec<&Email>)
    ensures
        targets(r@) == unanswered_emails(emails@),
{
    let replied = replied_to_ids(emails);
    select_unanswered(emails, &replied)
}

/// Whether `node`, or a node below it, is a thread that was started and never
/// answered with thread identifier `tid`: a node of depth 0 without
/// children. A node with children counts only through its descendants.
pub open spec fn holds_unanswered_root(node: ThreadStruct, tid: Seq<char>) -> bool
    decreases node, 0int,
{
    if node.children.len() == 0 {
        node.nest == 0 && node.tid@ == tid
    } else {
        proof {
            assert(decreases_to!(node.children => node.children@));
        }
        any_holds_unanswered_root(node.children@, tid)
    }
}

/// Whether some tree of `nodes` holds an unanswered thread with identifier
/// `tid`.
pub open spec fn any_holds_unanswered_root(nodes: Seq<ThreadStruct>, tid: Seq<char>) -> bool
    decreases nodes, 0int,
{
    if nodes.len() == 0 {
        false
    } else {
        proof {
            assert(decreases_to!(nodes => nodes[nodes.len() - 1]));
            assert(decreases_to!(nodes => nodes.subrange(0, nodes.len() - 1)));
        }
        any_holds_unanswered_root(nodes.subrange(0, nodes.len() - 1), tid) || holds_unanswered_root(
            nodes[nodes.len() - 1],
            tid,
        )
    }
}

/// Some tree of `nodes` holds `tid` exactly when one of them does.
pub proof fn lemma_any_holds(nodes: Seq<ThreadStruct>, tid: Seq<char>)
    ensures
        any_holds_unanswered_root(nodes, tid) <==> exists|i: int|
            0 <= i < nodes.len() && #[trigger] holds_unanswered_root(nodes[i], tid),
    decreases nodes.len(),
{
    if nodes.len() > 0 {
        let rest = nodes.subrange(0, nodes.len() - 1);
        lemma_any_holds(rest, tid);
        assert(any_holds_unanswered_root(nodes, tid) == (any_holds_unanswered_root(rest, tid)
            || holds_unanswered_root(nodes[nodes.len() - 1], tid)));
        if exists|i: int| 0 <= i < nodes.len() && #[trigger] holds_unanswered_root(nodes[i], tid) {
            let i = choose|i: int| 0 <= i < nodes.len() && #[trigger] holds_unanswered_root(nodes[i], tid);
            if i < nodes.len() - 1 {
                assert(rest[i] == nodes[i]);
            }
        }
        if any_holds_unanswered_root(rest, tid) {
            let i = choose|i: int| 0 <= i < rest.len() && #[trigger] holds_unanswered_root(rest[i], tid);
            assert(rest[i] == nodes[i]);
        }
    }
}

/// A node with children holds `tid` exactly when one of its children does.
pub proof fn lemma_inner_node_holds(node: ThreadStruct, tid: Seq<char>)
    requires
        node.children.len() > 0,
    ensures
        holds_unanswered_root(node, tid) <==> exists|i: int|
            0 <= i < node.children.len() && #[trigger] holds_unanswered_root(node.children@[i], tid),
{
    lemma_any_holds(node.children@, tid);
}

/// The identifiers of the unanswered threads within `node`.
pub open spec fn unanswered_roots(node: ThreadStruct) -> Set<Seq<char>> {
    Set::new(|tid: Seq<char>| holds_unanswered_root(node, tid))
}

/// The identifiers of the unanswered threads within the trees `threads`.
pub open spec fn unanswered_thread_ids(threads: Seq<ThreadStruct>) -> Set<Seq<char>> {
    Set::new(|tid: Seq<char>| exists|i: int| 0 <= i < threads.len() && #[trigger] holds_unanswered_root(threads[i], tid))
}

/// Adds to `out` the identifiers of the unanswered threads within `node`.
fn collect_unanswered_roots(node: &ThreadStruct, out: &mut IdSet)
    ensures
        final(out)@ == old(out)@.union(unanswered_roots(*node)),
    decreases node,
{
    if node.children.len() == 0 {
        if node.nest == 0 {
            out.insert(node.tid.clone());
        }
        assert(final(out)@ =~= old(out)@.union(unanswered_roots(*node)));
    } else {
        let ghost start = out@;
        let mut i: usize = 0;
        while i < node.children.len()
            invariant
                i <= node.children.len(),
                out@ == start.union(Set::new(|tid: Seq<char>| exists|j: int| 0 <= j < i && #[trigger] holds_unanswered_root(node.children@[j], tid))),
            decreases node.children.len() - i,
        {
            let ghost prev = out@;
            collect_unanswered_roots(&node.children[i], out);
            assert(out@ =~= start.union(Set::new(|tid: Seq<char>| exists|j: int| 0 <= j < i + 1 && #[trigger] holds_unanswered_root(node.children@[j], tid)))) by {
                assert forall|tid: Seq<char>| #[trigger] holds_unanswered_root(node.children@[i as int], tid) implies exists|j: int|
                    0 <= j < i + 1 && #[trigger] holds_unanswered_root(node.children@[j], tid) by {}
            }
            i += 1;
        }
        assert forall|tid: Seq<char>| #[trigger] unanswered_roots(*node).contains(tid) <==> exists|j: int|
            0 <= j < node.children.len() && #[trigger] holds_unanswered_root(node.children@[j], tid) by {
            lemma_inner_node_holds(*node, tid);
        }
        assert(out@ =~= start.union(unanswered_roots(*node)));
    }
}

/// The identifiers of the threads that were started and never answered:
/// the nodes of depth 0 without children, found anywhere within `threads`.
pub fn find_unanswered_threads(threads: &[ThreadStruct]) -> (r: IdSet)
    ensures
        r@ == unanswered_thread_ids(threads@),
{
    let mut r = IdSet::new();
    let mut i: usize = 0;
    while i < threads.len()
        invariant
            i <= threads.len(),
            r@ == Set::new(|tid: Seq<char>| exists|j: int| 0 <= j < i && #[trigger] holds_unanswered_root(threads@[j], tid)),
        decreases threads.len() - i,
    {
        collect_unanswered_roots(&threads[i], &mut r);
        assert(r@ =~= Set::new(|tid: Seq<char>| exists|j: int| 0 <= j < i + 1 && #[trigger] holds_unanswered_root(threads@[j], tid))) by {
            assert forall|tid: Seq<char>| #[trigger] holds_unanswered_root(threads@[i as int], tid) implies exists|j: int|
                0 <= j < i + 1 && #[trigger] holds_unanswered_root(threads@[j], tid) by {}
        }
        i += 1;
    }
    assert(r@ =~= unanswered_thread_ids(threads@));
    r
}

/// The selection test of the thread correlation: the email's `mid` is one
/// of `tids`.
pub open spec fn mid_in(tids: Set<Seq<char>>) -> spec_fn(Email) -> bool {
    |e: Email| tids.contains(e.mid@)
}

/// The emails whose `mid` is one of `tids`, in their order.
pub fn select_by_mid<'a>(emails: &'a [Email], tids: &IdSet) -> (r: Vec<&'a Email>)
    ensures
        targets(r@) == emails@.filter(mid_in(tids@)),
{
    let ghost keep = mid_in(tids@);
    let mut out: Vec<&Email> = Vec::new();
    let mut i: usize = 0;
    while i < emails.len()
        invariant
            i <= emails.len(),
            keep == mid_in(tids@),
            targets(out@) == emails@.take(i as int).filter(keep),
        decreases emails.len() - i,
    {
        let e = &emails[i];
        let selected = tids.contains(&e.mid);
        proof {
            reveal(Seq::filter);
            assert(emails@.take(i + 1).drop_last() =~= emails@.take(i as int));
            assert(emails@.take(i + 1).last() == emails@[i as int]);
        }
        let ghost prev = out@;
        if selected {
            out.push(e);
            assert(targets(out@) =~= targets(prev).push(*e));
        }
        i += 1;
    }
    assert(emails@.take(emails.len() as int) =~= emails@);
    out
}

/// The unanswered emails by the thread trees: those whose `mid` names a
/// thread of `threads` that was started and never answered, in their order.
pub fn find_unanswered_emails_in_threads<'a>(emails: &'a [Email], threads: &[ThreadStruct]) -> (r: Vec<&'a Email>)
    ensures
        targets(r@) == emails@.filter(mid_in(unanswered_thread_ids(threads@))),
{
    let tids = find_unanswered_threads(threads);
    select_by_mid(emails, &tids)
}

/// `idx` picks `sub` out of `s`: strictly increasing positions of `s` whose
/// elements, in turn, are those of `sub`.
pub open spec fn picks<A>(idx: Seq<int>, sub: Seq<A>, s: Seq<A>) -> bool {
    &&& idx.len() == sub.len()
    &&& forall|k: int| 0 <= k < idx.len() ==> 0 <= #[trigger] idx[k] < s.len() && sub[k] == s[idx[k]]
    &&& forall|k: int, l: int| 0 <= k < l < idx.len() ==> #[trigger] idx[k] < #[trigger] idx[l]
}

/// `sub` is made of elements of `s`, in the order in which they stand in `s`.
pub open spec fn is_ordered_subsequence<A>(sub: Seq<A>, s: Seq<A>) -> bool {
    exists|idx: Seq<int>| picks(idx, sub, s)
}

/// Filtering keeps the relative order of the elements it keeps.
pub proof fn lemma_filter_keeps_order<A>(s: Seq<A>, p: spec_fn(A) -> bool)
    ensures
        is_ordered_subsequence(s.filter(p), s),
    decreases s.len(),
{
    reveal(Seq::filter);
    if s.len() == 0 {
        assert(picks(Seq::<int>::empty(), s.filter(p), s));
    } else {
        let rest = s.drop_last();
        lemma_filter_keeps_order(rest, p);
        let idx = choose|idx: Seq<int>| picks(idx, rest.filter(p), rest);
        if p(s.last()) {
            let longer = idx.push(s.len() - 1);
            assert(picks(longer, s.filter(p), s)) by {
                assert forall|k: int| 0 <= k < longer.len() implies 0 <= #[trigger] longer[k] < s.len()
                    && s.filter(p)[k] == s[longer[k]] by {
                    if k < idx.len() {
                        assert(longer[k] == idx[k]);
                        assert(rest[idx[k]] == s[idx[k]]);
                    }
                }
                assert forall|k: int, l: int| 0 <= k < l < longer.len() implies #[trigger] longer[k]
                    < #[trigger] longer[l] by {
                    if l < idx.len() {
                        assert(longer[k] == idx[k] && longer[l] == idx[l]);
                    } else {
                        assert(longer[k] == idx[k]);
                        assert(0 <= idx[k] < rest.len());
                    }
                }
            }
        } else {
            assert(picks(idx, s.filter(p), s)) by {
                assert forall|k: int| 0 <= k < idx.len() implies 0 <= #[trigger] idx[k] < s.len()
                    && s.filter(p)[k] == s[idx[k]] by {
                    assert(rest[idx[k]] == s[idx[k]]);
                }
            }
        }
    }
}

/// Filtering with a test that every element passes changes nothing.
pub proof fn lemma_filter_all<A>(s: Seq<A>, p: spec_fn(A) -> bool)
    requires
        forall|k: int| 0 <= k < s.len() ==> #[trigger] p(s[k]),
    ensures
        s.filter(p) == s,
    decreases s.len(),
{
    reveal(Seq::filter);
    if s.len() > 0 {
        let rest = s.drop_last();
        assert forall|k: int| 0 <= k < rest.len() implies #[trigger] p(rest[k]) by {
            assert(rest[k] == s[k]);
        }
        lemma_filter_all(rest, p);
        assert(p(s[s.len() - 1]));
        assert(rest.push(s.last()) =~= s);
    }
}

/// The unanswered emails stand in the order in which they stand in
/// `emails`.
pub proof fn lemma_unanswered_keeps_order(emails: Seq<Email>)
    ensures
        is_ordered_subsequence(unanswered_emails(emails), emails),
{
    lemma_filter_keeps_order(emails, unanswered_in(emails));
}

/// The emails selected through the thread trees stand in the order in which
/// they stand in `emails`.
pub proof fn lemma_thread_selection_keeps_order(emails: Seq<Email>, threads: Seq<ThreadStruct>)
    ensures
        is_ordered_subsequence(emails.filter(mid_in(unanswered_thread_ids(threads))), emails),
{
    lemma_filter_keeps_order(emails, mid_in(unanswered_thread_ids(threads)));
}

/// An email that is no reply, and whose normalised `message_id` no other
/// email names as its normalised parent, is among the unanswered emails.
pub proof fn lemma_unreplied_root_is_unanswered(emails: Seq<Email>, i: int)
    requires
        0 <= i < emails.len(),
        emails[i].in_reply_to@.len() == 0,
        !has_reply_marker(emails[i].subject@),
        forall|j: int|
            0 <= j < emails.len() && j != i ==> stripped(#[trigger] emails[j].in_reply_to@) != stripped(
                emails[i].message_id@,
            ),
    ensures
        unanswered_emails(emails).contains(emails[i]),
{
    let id = stripped(emails[i].message_id@);
    if replied_ids(emails).contains(id) {
        let j = choose|j: int| 0 <= j < emails.len() && #[trigger] answers(emails[j], id);
        assert(stripped(emails[j].in_reply_to@) != id);
    }
    emails.lemma_filter_contains(unanswered_in(emails), i);
}

/// The unanswered emails of a selection of unanswered emails are that
/// selection itself.
pub proof fn lemma_unanswered_idempotent(emails: Seq<Email>)
    ensures
        unanswered_emails(unanswered_emails(emails)) == unanswered_emails(emails),
{
    let chosen = unanswered_emails(emails);
    let keep = unanswered_in(emails);
    assert forall|k: int| 0 <= k < chosen.len() implies !is_reply(#[trigger] chosen[k]) by {
        emails.lemma_filter_pred(keep, k);
    }
    assert(replied_ids(chosen) =~= Set::<Seq<char>>::empty()) by {
        assert forall|id: Seq<char>| !replied_ids(chosen).contains(id) by {
            if replied_ids(chosen).contains(id) {
                let j = choose|j: int| 0 <= j < chosen.len() && #[trigger] answers(chosen[j], id);
                assert(!is_reply(chosen[j]));
            }
        }
    }
    assert forall|k: int| 0 <= k < chosen.len() implies #[trigger] unanswered_in(chosen)(chosen[k]) by {
        assert(!is_reply(chosen[k]));
    }
    lemma_filter_all(chosen, unanswered_in(chosen));
}

} // verus!
