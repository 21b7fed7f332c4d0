//! The comment tree: nesting a post's flat comment list under parents.
use vstd::prelude::*;

use crate::board::opt_view;
use crate::entities::PostComment;
use crate::text::{chars_eq, chars_of, owned, take_chars};

verus! {

/// The parent key of a comment (its parent's id, or none for top level).
pub open spec fn parent_key(c: PostComment) -> Option<Seq<char>> {
    opt_view(c.parent_comment_id)
}

/// The body a comment is shown with: soft-deleted comments keep their
/// place in the tree with the placeholder `[deleted]`.
pub open spec fn shown_body(c: PostComment) -> Seq<char> {
    if c.deleted_at is Some {
        "[deleted]"@
    } else {
        c.body@
    }
}

/// Node `n` shows comment `c`: every field but the replies is `c`'s, and the
/// body is the shown body.
pub open spec fn node_matches(n: PostComment, c: PostComment) -> bool {
    &&& n.id == c.id
    &&& n.post_id == c.post_id
    &&& n.author_user_id == c.author_user_id
    &&& n.author_display_name == c.author_display_name
    &&& n.parent_comment_id == c.parent_comment_id
    &&& n.body@ == shown_body(c)
    &&& n.created_at == c.created_at
    &&& n.edited_at == c.edited_at
    &&& n.deleted_at == c.deleted_at
}

/// A node of the tree shows its comment's own body unless the comment is
/// deleted, whatever else (such as an edit) happened to it; a deleted
/// comment shows `[deleted]`. Every other field is the comment's.
pub proof fn law_only_deleted_comments_are_blanked(n: PostComment, c: PostComment)
    requires
        node_matches(n, c),
    ensures
        c.deleted_at is None ==> n.body@ == c.body@,
        c.deleted_at is Some ==> n.body@ == "[deleted]"@,
        n.id == c.id && n.parent_comment_id == c.parent_comment_id && n.edited_at == c.edited_at
            && n.deleted_at == c.deleted_at && n.created_at == c.created_at,
{
}

/// `a` and `b` agree on every field but the replies.
pub open spec fn same_fields(a: PostComment, b: PostComment) -> bool {
    &&& a.id == b.id
    &&& a.post_id == b.post_id
    &&& a.author_user_id == b.author_user_id
    &&& a.author_display_name == b.author_display_name
    &&& a.parent_comment_id == b.parent_comment_id
    &&& a.body == b.body
    &&& a.created_at == b.created_at
    &&& a.edited_at == b.edited_at
    &&& a.deleted_at == b.deleted_at
}

/// The comments of `flat` whose parent key is `key`, in input order.
pub open spec fn children_of(flat: Seq<PostComment>, key: Option<Seq<char>>) -> Seq<PostComment>
    decreases flat.len(),
{
    if flat.len() == 0 {
        Seq::empty()
    } else {
        let rest = children_of(flat.drop_last(), key);
        if parent_key(flat.last()) == key {
            rest.push(flat.last())
        } else {
            rest
        }
    }
}

/// `nodes` is the forest of the comments under `key`, `fuel` levels deep:
/// one node per child of `key`, in input order, each showing that child,
/// and (while fuel lasts) each node's replies are the forest under it.
pub open spec fn forest_ok(
    nodes: Seq<PostComment>,
    flat: Seq<PostComment>,
    key: Option<Seq<char>>,
    fuel: nat,
) -> bool
    decreases fuel,
{
    let kids = children_of(flat, key);
    &&& nodes.len() == kids.len()
    &&& forall|i: int| 0 <= i < nodes.len() ==> #[trigger] node_matches(nodes[i], kids[i])
    &&& fuel > 0 ==> forall|i: int|
        0 <= i < nodes.len() ==> forest_ok(
            #[trigger] nodes[i].replies@,
            flat,
            Some(kids[i].id@),
            (fuel - 1) as nat,
        )
}

/// Node `n` shows the `j`-th comment of `flat`, a child of `key`.
pub open spec fn shows_child(n: PostComment, flat: Seq<PostComment>, key: Option<Seq<char>>, j: int) -> bool {
    &&& 0 <= j < flat.len()
    &&& parent_key(flat[j]) == key
    &&& node_matches(n, flat[j])
}

/// Node `n` shows some comment of `flat` that is a child of `key`.
pub open spec fn shown(n: PostComment, flat: Seq<PostComment>, key: Option<Seq<char>>) -> bool {
    exists|j: int| #[trigger] shows_child(n, flat, key, j)
}

/// Every node of `nodes`, `fuel` levels deep, shows a comment of `flat`
/// whose parent is the node it hangs under (`key` at the top).
pub open spec fn forest_sound(
    nodes: Seq<PostComment>,
    flat: Seq<PostComment>,
    key: Option<Seq<char>>,
    fuel: nat,
) -> bool
    decreases fuel,
{
    &&& forall|i: int| 0 <= i < nodes.len() ==> #[trigger] shown(nodes[i], flat, key)
    &&& fuel > 0 ==> forall|i: int|
        0 <= i < nodes.len() ==> forest_sound(
            #[trigger] nodes[i].replies@,
            flat,
            Some(nodes[i].id@),
            (fuel - 1) as nat,
        )
}

/// No two comments share an id.
pub open spec fn unique_ids(flat: Seq<PostComment>) -> bool {
    forall|i: int, j: int| 0 <= i < flat.len() && 0 <= j < flat.len() && i != j ==> #[trigger] flat[i].id@ != #[trigger] flat[j].id@
}

/// Number of untaken entries.
pub open spec fn count_some(p: Seq<Option<PostComment>>) -> nat
    decreases p.len(),
{
    if p.len() == 0 {
        0
    } else {
        count_some(p.drop_last()) + if p.last() is Some {
            1nat
        } else {
            0
        }
    }
}

proof fn lemma_count_mono(p: Seq<Option<PostComment>>, q: Seq<Option<PostComment>>)
    requires
        p.len() == q.len(),
        forall|i: int| 0 <= i < p.len() && (#[trigger] q[i]) is Some ==> p[i] is Some,
    ensures
        count_some(q) <= count_some(p),
    decreases p.len(),
{
    if p.len() > 0 {
        let (p1, q1) = (p.drop_last(), q.drop_last());
        assert forall|i: int| 0 <= i < p1.len() && (#[trigger] q1[i]) is Some implies p1[i] is Some by {
            assert(q1[i] == q[i]);
        }
        lemma_count_mono(p1, q1);
        assert(q.last() == q[q.len() - 1]);
    }
}

proof fn lemma_count_take(p: Seq<Option<PostComment>>, i: int)
    requires
        0 <= i < p.len(),
        p[i] is Some,
    ensures
        count_some(p.update(i, None)) + 1 == count_some(p),
    decreases p.len(),
{
    let q = p.update(i, None);
    if i == p.len() - 1 {
        assert(q.drop_last() =~= p.drop_last());
    } else {
        assert(q.drop_last() =~= p.drop_last().update(i, None));
        lemma_count_take(p.drop_last(), i);
    }
}

proof fn lemma_children_take_step(flat: Seq<PostComment>, key: Option<Seq<char>>, i: int)
    requires
        0 <= i < flat.len(),
    ensures
        children_of(flat.take(i + 1), key) == if parent_key(flat[i]) == key {
            children_of(flat.take(i), key).push(flat[i])
        } else {
            children_of(flat.take(i), key)
        },
{
    assert(flat.take(i + 1).drop_last() =~= flat.take(i));
}

fn opt_key_eq(a: &Option<Vec<char>>, b: &Option<Vec<char>>) -> (r: bool)
    ensures
        r == (opt_seq(*a) == opt_seq(*b)),
{
    match (a, b) {
        (Some(x), Some(y)) => chars_eq(x, y),
        (None, None) => true,
        _ => false,
    }
}

/// Optional character-vector view.
pub open spec fn opt_seq(o: Option<Vec<char>>) -> Option<Seq<char>> {
    match o {
        Some(v) => Some(v@),
        None => None,
    }
}

/// The ghost invariant of the nesting pass, under unique ids: started
/// comments have been taken, and every taken comment hangs under the top
/// level or under a started comment.
pub open spec fn pass_inv(flat: Seq<PostComment>, pool: Seq<Option<PostComment>>, started: Set<int>) -> bool {
    &&& forall|i: int| #[trigger] started.contains(i) ==> 0 <= i < pool.len() && pool[i] is None
    &&& forall|i: int|
        0 <= i < pool.len() && (#[trigger] pool[i]) is None ==> (parent_key(flat[i]) is None || exists|j: int|
            #[trigger] started.contains(j) && parent_key(flat[i]) == Some(flat[j].id@))
}

/// The entries of `pool` still holding comments are those of `before`
/// that it still holds, unchanged.
pub open spec fn pool_shrunk(before: Seq<Option<PostComment>>, after: Seq<Option<PostComment>>) -> bool {
    &&& before.len() == after.len()
    &&& forall|i: int| 0 <= i < after.len() && (#[trigger] after[i]) is Some ==> after[i] == before[i]
}

fn attach(
    key: &Option<Vec<char>>,
    pool: &mut Vec<Option<PostComment>>,
    keys: &Vec<Option<Vec<char>>>,
    ids: &Vec<Vec<char>>,
    Ghost(flat): Ghost<Seq<PostComment>>,
    Ghost(started): Ghost<Set<int>>,
    Ghost(owner): Ghost<Option<int>>,
    Ghost(fuel): Ghost<nat>,
) -> (r: (Vec<PostComment>, Ghost<Set<int>>))
    requires
        old(pool).len() == keys.len() == ids.len() == flat.len(),
        forall|i: int| 0 <= i < flat.len() ==> opt_seq(#[trigger] keys@[i]) == parent_key(flat[i]),
        forall|i: int| 0 <= i < flat.len() ==> (#[trigger] ids@[i])@ == flat[i].id@,
        forall|i: int|
            0 <= i < flat.len() && (#[trigger] old(pool)@[i]) is Some ==> node_matches(
                old(pool)@[i]->0,
                flat[i],
            ),
        fuel >= count_some(old(pool)@),
        unique_ids(flat) ==> {
            &&& pass_inv(flat, old(pool)@, started)
            &&& forall|i: int|
                0 <= i < flat.len() && parent_key(#[trigger] flat[i]) == opt_seq(*key) ==> old(
                    pool,
                )@[i] is Some
            &&& match owner {
                Some(c) => 0 <= c < flat.len() && opt_seq(*key) == Some(flat[c].id@)
                    && old(pool)@[c] is None && !started.contains(c),
                None => opt_seq(*key) is None,
            }
        },
    ensures
        pool_shrunk(old(pool)@, final(pool)@),
        forest_sound(r.0@, flat, opt_seq(*key), fuel),
        (forall|i: int|
            0 <= i < flat.len() && parent_key(#[trigger] flat[i]) == opt_seq(*key) ==> old(pool)@[i] is Some)
            ==> forest_ok(r.0@, flat, opt_seq(*key), 0),
        unique_ids(flat) ==> {
            &&& pass_inv(flat, final(pool)@, r.1@)
            &&& started.subset_of(r.1@)
            &&& forall|i: int| #[trigger] r.1@.contains(i) ==> started.contains(i) || owner == Some(i)
                || old(pool)@[i] is Some
            &&& forest_ok(r.0@, flat, opt_seq(*key), fuel)
        },
    decreases fuel,
{
    let ghost uniq = unique_ids(flat);
    let ghost mut st = started;
    proof {
        if let Some(c) = owner {
            st = st.insert(c);
        }
    }
    let ghost pool0 = pool@;
    let ghost kv = opt_seq(*key);
    let ghost comp = forall|j: int| 0 <= j < flat.len() && parent_key(#[trigger] flat[j]) == kv ==> pool0[j] is Some;
    proof {
        if uniq {
            assert(comp);
        }
    }
    let n = pool.len();
    let mut kids: Vec<PostComment> = Vec::new();
    let mut kidx: Vec<usize> = Vec::new();
    let mut i: usize = 0;
    while i < n
        invariant
            kv == opt_seq(*key),
            uniq == unique_ids(flat),
            i <= n == pool.len() == keys.len() == ids.len() == flat.len(),
            forall|j: int| 0 <= j < flat.len() ==> opt_seq(#[trigger] keys@[j]) == parent_key(flat[j]),
            pool0.len() == n,
            pool_shrunk(pool0, pool@),
            forall|j: int| i <= j < n ==> pool@[j] == pool0[j],
            kids.len() == kidx.len(),
            forall|t: int|
                0 <= t < kidx.len() ==> {
                    &&& (#[trigger] kidx@[t]) < i
                    &&& pool@[kidx@[t] as int] is None
                    &&& pool0[kidx@[t] as int] is Some
                    &&& node_matches(kids@[t], flat[kidx@[t] as int])
                    &&& parent_key(flat[kidx@[t] as int]) == kv
                },
            forall|t: int, u: int| 0 <= t < u < kidx.len() ==> kidx@[t] < kidx@[u],
            forall|j: int| 0 <= j < n && (#[trigger] pool@[j]) is None && pool0[j] is Some ==> exists|t: int|
                0 <= t < kidx.len() && kidx@[t] == j,
            count_some(pool@) + kids.len() == count_some(pool0),
            forall|j: int|
                0 <= j < flat.len() && (#[trigger] pool0[j]) is Some ==> node_matches(pool0[j]->0, flat[j]),
            comp == (forall|j: int| 0 <= j < flat.len() && parent_key(#[trigger] flat[j]) == kv ==> pool0[j] is Some),
            comp ==> kids@.len() == children_of(flat.take(i as int), kv).len() && forall|t: int|
                0 <= t < kids.len() ==> flat[kidx@[t] as int] == #[trigger] children_of(
                    flat.take(i as int),
                    kv,
                )[t],
        decreases n - i,
    {
        proof {
            lemma_children_take_step(flat, kv, i as int);
        }
        proof {
            assert(opt_seq(keys@[i as int]) == parent_key(flat[i as int]));
            assert(pool@[i as int] == pool0[i as int]);
        }
        let present = pool[i].is_some();
        let same_key = opt_key_eq(&keys[i], key);
        assert(same_key == (opt_seq(keys@[i as int]) == opt_seq(*key)));
        assert(kv == opt_seq(*key));
        assert(same_key == (parent_key(flat[i as int]) == kv));
        let take = present && same_key;
        if take {
            let ghost before = pool@;
            let ghost old_kidx = kidx@;
            let node = pool.remove(i);
            pool.insert(i, None);
            proof {
                assert(node == pool0[i as int]);
                assert(pool@ =~= before.update(i as int, None));
                lemma_count_take(before, i as int);
                assert(parent_key(flat[i as int]) == kv);
            }
            if let Some(nd) = node {
                kids.push(nd);
                kidx.push(i);
            }
            proof {
                let t = kidx.len() - 1;
                assert(kidx@[t] == i);
                if comp {
                    assert(children_of(flat.take(i + 1), kv) == children_of(flat.take(i as int), kv).push(flat[i as int]));
                    assert forall|t: int|
                        0 <= t < kids.len() implies flat[kidx@[t] as int] == #[trigger] children_of(
                        flat.take(i + 1),
                        kv,
                    )[t] by {
                        if t < kids.len() - 1 {
                            assert(children_of(flat.take(i + 1), kv)[t] == children_of(flat.take(i as int), kv)[t]);
                        }
                    }
                }
                assert forall|j: int|
                    0 <= j < n && (#[trigger] pool@[j]) is None && pool0[j] is Some implies exists|t: int|
                    0 <= t < kidx.len() && kidx@[t] == j by {
                    if j == i {
                        assert(kidx@[kidx.len() - 1] == j);
                    } else {
                        let t0 = choose|t0: int| 0 <= t0 < old_kidx.len() && old_kidx[t0] == j;
                        assert(kidx@[t0] == j);
                    }
                }
            }
        } else {
            proof {
                if comp && parent_key(flat[i as int]) == kv {
                    assert(pool0[i as int] is Some);
                    assert(pool@[i as int] is Some);
                    assert(opt_seq(keys@[i as int]) == kv);
                }
                assert(comp ==> children_of(flat.take(i + 1), kv) == children_of(flat.take(i as int), kv));
            }
        }
        i = i + 1;
    }
    proof {
        assert(flat.take(n as int) =~= flat);
    }
    let ghost pool1 = pool@;
    proof {
        if uniq {
            assert forall|j: int| #[trigger] st.contains(j) implies 0 <= j < pool1.len() && pool1[j] is None by {
                if started.contains(j) {
                    assert(pool0[j] is None);
                }
            }
            assert forall|j: int|
                0 <= j < pool1.len() && (#[trigger] pool1[j]) is None implies (parent_key(flat[j]) is None
                || exists|k: int| #[trigger] st.contains(k) && parent_key(flat[j]) == Some(flat[k].id@)) by {
                if pool0[j] is None {
                    if parent_key(flat[j]) is Some {
                        let k = choose|k: int| #[trigger] started.contains(k) && parent_key(flat[j]) == Some(flat[k].id@);
                        assert(st.contains(k));
                    }
                } else {
                    let t = choose|t: int| 0 <= t < kidx.len() && kidx@[t] == j;
                    assert(parent_key(flat[kidx@[t] as int]) == kv);
                    if let Some(c) = owner {
                        assert(st.contains(c));
                    }
                }
            }
        }
    }
    let ghost kids0 = kids@;
    let total = kids.len();
    let mut out: Vec<PostComment> = Vec::new();
    let mut t: usize = 0;
    while t < total
        invariant
            kv == opt_seq(*key),
            uniq == unique_ids(flat),
            t <= total == kidx.len(),
            kids.len() == total - t,
            forall|s: int| 0 <= s < kids.len() ==> #[trigger] kids@[s] == kids0[s + t],
            forall|j: int|
                0 <= j < flat.len() && (#[trigger] pool0[j]) is Some ==> node_matches(pool0[j]->0, flat[j]),
            kids0.len() == total,
            pool.len() == keys.len() == ids.len() == flat.len() == pool0.len() == pool1.len(),
            forall|j: int| 0 <= j < flat.len() ==> opt_seq(#[trigger] keys@[j]) == parent_key(flat[j]),
            forall|j: int| 0 <= j < flat.len() ==> (#[trigger] ids@[j])@ == flat[j].id@,
            pool_shrunk(pool0, pool1),
            pool_shrunk(pool1, pool@),
            count_some(pool1) + total == count_some(pool0),
            fuel >= count_some(pool0),
            forall|s: int|
                0 <= s < total ==> {
                    &&& pool1[(#[trigger] kidx@[s]) as int] is None
                    &&& pool0[kidx@[s] as int] is Some
                    &&& node_matches(kids0[s], flat[kidx@[s] as int])
                    &&& 0 <= kidx@[s] < flat.len()
                    &&& parent_key(flat[kidx@[s] as int]) == kv
                },
            forall|s: int|
                0 <= s < t ==> forest_sound(#[trigger] out@[s].replies@, flat, Some(out@[s].id@), (fuel - 1) as nat),
            uniq ==> comp,
            comp ==> kids0.len() == children_of(flat, kv).len() && forall|s: int|
                0 <= s < total ==> flat[(#[trigger] kidx@[s]) as int] == children_of(flat, kv)[s],
            forall|s: int, u: int| 0 <= s < u < kidx.len() ==> kidx@[s] < kidx@[u],
            out.len() == t,
            forall|s: int| 0 <= s < t ==> #[trigger] same_fields(out@[s], kids0[s]),
            uniq ==> {
                &&& pass_inv(flat, pool@, st)
                &&& forall|j: int| #[trigger] st.contains(j) ==> started.contains(j) || owner == Some(j) || pool0[j] is Some
                &&& started.subset_of(st)
                &&& forall|s: int| t <= s < total ==> !st.contains(#[trigger] kidx@[s] as int)
                &&& forall|s: int| 0 <= s < t ==> forest_ok(#[trigger] out@[s].replies@, flat, Some(kids0[s].id@), (fuel - 1) as nat)
            },
        decreases total - t,
    {
        let mut node = kids.remove(0);
        let c = kidx[t];
        proof {
            assert(c == kidx@[t as int]);
            assert(0 <= c < flat.len());
            assert(node == kids0[t as int]);
            lemma_count_mono(pool1, pool@);
            assert forall|j: int| 0 <= j < flat.len() && (#[trigger] pool@[j]) is Some implies node_matches(pool@[j]->0, flat[j]) by {
                assert(pool1[j] is Some);
                assert(pool0[j] is Some);
            }
            assert(fuel >= 1);
            if uniq {
                assert forall|j: int| 0 <= j < flat.len() && parent_key(#[trigger] flat[j]) == Some(flat[c as int].id@) implies pool@[j] is Some by {
                    if pool@[j] is None {
                        if parent_key(flat[j]) is Some {
                            let k = choose|k: int| #[trigger] st.contains(k) && parent_key(flat[j]) == Some(flat[k].id@);
                            assert(0 <= k < pool@.len());
                            assert(flat[k].id@ == flat[c as int].id@);
                            assert(k == c);
                        }
                    }
                }
            }
        }
        let ghost pool_before = pool@;
        let ck = take_chars(&ids[c], ids[c].len());
        proof {
            assert(ids@[c as int]@.take(ids@[c as int]@.len() as int) =~= ids@[c as int]@);
        }
        let child_key: Option<Vec<char>> = Some(ck);
        proof {
            if uniq {
                assert(pool1[c as int] is None);
                if pool@[c as int] is Some {
                    assert(pool@[c as int] == pool1[c as int]);
                }
                assert(!st.contains(kidx@[t as int] as int));
                assert(opt_seq(child_key) == Some(flat[c as int].id@));
            }
        }
        let (replies, Ghost(st2)) = attach(
            &child_key,
            pool,
            keys,
            ids,
            Ghost(flat),
            Ghost(st),
            Ghost(Some(c as int)),
            Ghost((fuel - 1) as nat),
        );
        proof {
            if uniq {
                assert forall|s: int| t + 1 <= s < total implies !st2.contains(#[trigger] kidx@[s] as int) by {
                    assert(kidx@[s] != c);
                }
                assert forall|j: int| #[trigger] st2.contains(j) implies started.contains(j) || owner == Some(j) || pool0[j] is Some by {
                    if !st.contains(j) && j != c {
                        assert(pool_before[j] is Some);
                        assert(pool1[j] is Some);
                    }
                    if j == c {
                        assert(pool0[kidx@[t as int] as int] is Some);
                    }
                }
                st = st2;
            }
        }
        proof {
            assert(node_matches(kids0[t as int], flat[c as int]));
        }
        node.replies = replies;
        out.push(node);
        proof {
            assert(out@[t as int].replies@ == replies@);
            assert(out@[t as int].id@ == flat[c as int].id@);
        }
        t = t + 1;
        proof {
            assert forall|j: int| 0 <= j < pool@.len() && (#[trigger] pool@[j]) is Some implies pool@[j] == pool1[j] by {
                assert(pool_before[j] is Some);
            }
        }
    }
    proof {
        assert forall|j: int| 0 <= j < pool@.len() && (#[trigger] pool@[j]) is Some implies pool@[j] == pool0[j] by {
            assert(pool1[j] is Some);
        }
        assert forall|s: int| 0 <= s < out@.len() implies #[trigger] shown(out@[s], flat, kv) by {
            assert(same_fields(out@[s], kids0[s]));
            assert(node_matches(kids0[s], flat[kidx@[s] as int]));
            assert(shows_child(out@[s], flat, kv, kidx@[s] as int));
        }
        assert(out.len() == total);
        assert forall|s: int| 0 <= s < out@.len() implies forest_sound(
            #[trigger] out@[s].replies@,
            flat,
            Some(out@[s].id@),
            (fuel - 1) as nat,
        ) by {}
        assert(forest_sound(out@, flat, kv, fuel));
        if comp {
            assert forall|s: int| 0 <= s < out.len() implies #[trigger] node_matches(out@[s], children_of(flat, kv)[s]) by {
                assert(same_fields(out@[s], kids0[s]));
                assert(node_matches(kids0[s], flat[kidx@[s] as int]));
            }
            assert(forest_ok(out@, flat, kv, 0));
        }
        if uniq {
            assert(forest_ok(out@, flat, kv, fuel));
        }
    }
    (out, Ghost(st))
}

/// Nests a post's flat comment list into a reply tree: top-level comments
/// in input order, each with its replies under it; soft-deleted comments
/// keep their place with the body `[deleted]`. With unique ids (as stored
/// comments have) the result is the full forest under the top level.
pub fn nest_comments(flat: Vec<PostComment>) -> (r: Vec<PostComment>)
    ensures
        forest_ok(r@, flat@, None, 0),
        forest_sound(r@, flat@, None, flat@.len()),
        unique_ids(flat@) ==> forest_ok(r@, flat@, None, flat@.len()),
{
    let ghost orig = flat@;
    let n = flat.len();
    let mut flat = flat;
    let mut pool: Vec<Option<PostComment>> = Vec::new();
    let mut keys: Vec<Option<Vec<char>>> = Vec::new();
    let mut ids: Vec<Vec<char>> = Vec::new();
    let mut i: usize = 0;
    while i < n
        invariant
            i <= n == orig.len(),
            flat@ == orig.skip(i as int),
            pool.len() == i,
            keys.len() == i,
            ids.len() == i,
            forall|j: int| 0 <= j < i ==> opt_seq(#[trigger] keys@[j]) == parent_key(orig[j]),
            forall|j: int| 0 <= j < i ==> (#[trigger] ids@[j])@ == orig[j].id@,
            forall|j: int| 0 <= j < i ==> (#[trigger] pool@[j]) is Some && node_matches(pool@[j]->0, orig[j]),
        decreases n - i,
    {
        let mut c = flat.remove(0);
        proof {
            assert(c == orig[i as int]);
            assert(flat@ =~= orig.skip(i + 1));
        }
        if c.deleted_at.is_some() {
            c.body = owned("[deleted]");
        }
        c.replies = Vec::new();
        let k: Option<Vec<char>> = match &c.parent_comment_id {
            Some(p) => Some(chars_of(p.as_str())),
            None => None,
        };
        keys.push(k);
        ids.push(chars_of(c.id.as_str()));
        pool.push(Some(c));
        i = i + 1;
    }
    proof {
        assert(count_some(pool@) <= pool@.len()) by {
            lemma_count_le_len(pool@);
        }
    }
    let none_key: Option<Vec<char>> = None;
    let (roots, _) = attach(&none_key, &mut pool, &keys, &ids, Ghost(orig), Ghost(Set::empty()), Ghost(None), Ghost(n as nat));
    roots
}

proof fn lemma_count_le_len(p: Seq<Option<PostComment>>)
    ensures
        count_some(p) <= p.len(),
    decreases p.len(),
{
    if p.len() > 0 {
        lemma_count_le_len(p.drop_last());
    }
}

} // verus!
