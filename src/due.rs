//! The due batch of a tick: feeds whose next poll has come (or that have no
//! state yet), earliest first, ties broken by feed id, capped.
use vstd::prelude::*;

use crate::config::FeedConfig;

verus! {

/// Lexicographic order of texts by code point, as `str`'s `<` orders them.
pub open spec fn text_lt(a: Seq<char>, b: Seq<char>) -> bool
    decreases a.len(),
{
    if a.len() == 0 {
        b.len() > 0
    } else if b.len() == 0 {
        false
    } else if a[0] != b[0] {
        (a[0] as int) < (b[0] as int)
    } else {
        text_lt(a.drop_first(), b.drop_first())
    }
}

/// Whether feed `j` is due at `now_ms`: it has no state, or its next poll
/// time has come.
pub open spec fn is_due(next_poll: Seq<Option<i64>>, j: int, now_ms: i64) -> bool {
    next_poll[j] matches Some(t) ==> t <= now_ms
}

/// Sort key of a feed's next poll time; a feed without state comes first.
pub open spec fn poll_key(next_poll: Seq<Option<i64>>, j: int) -> int {
    match next_poll[j] {
        Some(t) => t as int,
        None => i64::MIN as int - 1,
    }
}

/// Whether feed `a` comes before feed `b`: earlier next poll, then smaller
/// id, then earlier position.
pub open spec fn due_before(feeds: Seq<FeedConfig>, next_poll: Seq<Option<i64>>, a: int, b: int) -> bool {
    let ka = poll_key(next_poll, a);
    let kb = poll_key(next_poll, b);
    ||| ka < kb
    ||| ka == kb && text_lt(feeds[a].id@, feeds[b].id@)
    ||| ka == kb && feeds[a].id@ == feeds[b].id@ && a < b
}

/// `r` is the due batch: due feeds in order, at most `limit`, and every due
/// feed left out comes after all those taken, which then number `limit`.
pub open spec fn is_due_batch(
    feeds: Seq<FeedConfig>,
    next_poll: Seq<Option<i64>>,
    now_ms: i64,
    limit: nat,
    r: Seq<usize>,
) -> bool {
    &&& r.len() <= limit
    &&& forall|k: int| 0 <= k < r.len() ==> r[k] < feeds.len() && is_due(next_poll, r[k] as int, now_ms)
    &&& forall|a: int, b: int|
        0 <= a < b < r.len() ==> due_before(feeds, next_poll, r[a] as int, r[b] as int)
    &&& forall|j: int|
        0 <= j < feeds.len() && is_due(next_poll, j, now_ms) && !r.contains(j as usize) ==> r.len()
            == limit && forall|k: int|
            0 <= k < r.len() ==> due_before(feeds, next_poll, r[k] as int, j)
}

proof fn lemma_text_lt_total(a: Seq<char>, b: Seq<char>)
    ensures
        a == b || text_lt(a, b) || text_lt(b, a),
        !(text_lt(a, b) && text_lt(b, a)),
    decreases a.len(),
{
    if a.len() > 0 && b.len() > 0 {
        if a[0] == b[0] {
            lemma_text_lt_total(a.drop_first(), b.drop_first());
            if a.drop_first() == b.drop_first() {
                assert(a =~= b) by {
                    assert forall|i: int| 0 <= i < a.len() implies a[i] == b[i] by {
                        if i > 0 {
                            assert(a[i] == a.drop_first()[i - 1]);
                            assert(b[i] == b.drop_first()[i - 1]);
                        }
                    }
                }
            }
        }
    } else if a.len() == 0 && b.len() == 0 {
        assert(a =~= b);
    }
}

proof fn lemma_text_lt_transitive(a: Seq<char>, b: Seq<char>, c: Seq<char>)
    requires
        text_lt(a, b),
        text_lt(b, c),
    ensures
        text_lt(a, c),
    decreases a.len(),
{
    if a.len() > 0 && a[0] == b[0] && b[0] == c[0] {
        lemma_text_lt_transitive(a.drop_first(), b.drop_first(), c.drop_first());
    }
}

proof fn lemma_due_before_total(feeds: Seq<FeedConfig>, next_poll: Seq<Option<i64>>, a: int, b: int)
    requires
        a != b,
    ensures
        due_before(feeds, next_poll, a, b) != due_before(feeds, next_poll, b, a),
{
    lemma_text_lt_total(feeds[a].id@, feeds[b].id@);
}

proof fn lemma_due_before_transitive(
    feeds: Seq<FeedConfig>,
    next_poll: Seq<Option<i64>>,
    a: int,
    b: int,
    c: int,
)
    requires
        due_before(feeds, next_poll, a, b),
        due_before(feeds, next_poll, b, c),
    ensures
        due_before(feeds, next_poll, a, c),
{
    let ia = feeds[a].id@;
    let ib = feeds[b].id@;
    let ic = feeds[c].id@;
    if poll_key(next_poll, a) == poll_key(next_poll, b) && poll_key(next_poll, b) == poll_key(
        next_poll,
        c,
    ) {
        if text_lt(ia, ib) && text_lt(ib, ic) {
            lemma_text_lt_transitive(ia, ib, ic);
        }
    }
}

fn text_less(a: &str, b: &str) -> (r: bool)
    ensures
        r == text_lt(a@, b@),
{
    let na = a.unicode_len();
    let nb = b.unicode_len();
    let mut i: usize = 0;
    proof {
        assert(a@.subrange(0, na as int) =~= a@);
        assert(b@.subrange(0, nb as int) =~= b@);
    }
    while i < na && i < nb
        invariant
            na == a@.len(),
            nb == b@.len(),
            i <= na,
            i <= nb,
            text_lt(a@, b@) == text_lt(a@.subrange(i as int, na as int), b@.subrange(i as int, nb as int)),
        decreases na - i,
    {
        let ca = a.get_char(i);
        let cb = b.get_char(i);
        let ghost sa = a@.subrange(i as int, na as int);
        let ghost sb = b@.subrange(i as int, nb as int);
        proof {
            assert(sa[0] == ca);
            assert(sb[0] == cb);
            assert(sa.drop_first() =~= a@.subrange(i + 1, na as int));
            assert(sb.drop_first() =~= b@.subrange(i + 1, nb as int));
        }
        if ca != cb {
            return (ca as u32) < (cb as u32);
        }
        i = i + 1;
    }
    i == na && i < nb
}

fn before(feeds: &Vec<FeedConfig>, next_poll: &Vec<Option<i64>>, a: usize, b: usize) -> (r: bool)
    requires
        a < feeds@.len(),
        b < feeds@.len(),
        feeds@.len() == next_poll@.len(),
    ensures
        r == due_before(feeds@, next_poll@, a as int, b as int),
{
    let ka: i128 = match next_poll[a] {
        Some(t) => t as i128,
        None => i64::MIN as i128 - 1,
    };
    let kb: i128 = match next_poll[b] {
        Some(t) => t as i128,
        None => i64::MIN as i128 - 1,
    };
    if ka != kb {
        return ka < kb;
    }
    if text_less(feeds[a].id.as_str(), feeds[b].id.as_str()) {
        return true;
    }
    feeds[a].id == feeds[b].id && a < b
}

/// The due batch at `now_ms` (`next_poll[j]` is feed `j`'s next poll time,
/// `None` for a feed without state), as positions into `feeds`.
pub fn select_due(feeds: &Vec<FeedConfig>, next_poll: &Vec<Option<i64>>, now_ms: i64, limit: usize) -> (r:
    Vec<usize>)
    requires
        feeds@.len() == next_poll@.len(),
    ensures
        is_due_batch(feeds@, next_poll@, now_ms, limit as nat, r@),
{
    let mut out: Vec<usize> = Vec::new();
    let mut j: usize = 0;
    while j < feeds.len()
        invariant
            feeds@.len() == next_poll@.len(),
            j <= feeds@.len(),
            out@.len() <= limit,
            forall|k: int|
                0 <= k < out@.len() ==> out@[k] < j && is_due(next_poll@, out@[k] as int, now_ms),
            forall|a: int, b: int|
                0 <= a < b < out@.len() ==> due_before(feeds@, next_poll@, out@[a] as int, out@[b] as int),
            forall|x: int|
                0 <= x < j && is_due(next_poll@, x, now_ms) && !out@.contains(x as usize) ==> out@.len()
                    == limit && forall|k: int|
                    0 <= k < out@.len() ==> due_before(feeds@, next_poll@, out@[k] as int, x),
        decreases feeds@.len() - j,
    {
        let due = match next_poll[j] {
            Some(t) => t <= now_ms,
            None => true,
        };
        if due {
            let mut p: usize = 0;
            while p < out.len() && !before(feeds, next_poll, j, out[p])
                invariant
                    feeds@.len() == next_poll@.len(),
                    j < feeds@.len(),
                    p <= out@.len(),
                    forall|k: int| 0 <= k < out@.len() ==> out@[k] < j,
                    forall|q: int|
                        0 <= q < p ==> due_before(feeds@, next_poll@, out@[q] as int, j as int),
                decreases out@.len() - p,
            {
                proof {
                    lemma_due_before_total(feeds@, next_poll@, j as int, out@[p as int] as int);
                }
                p = p + 1;
            }
            if p < limit {
                let ghost old_out = out@;
                proof {
                    assert forall|q: int| p <= q < old_out.len() implies due_before(
                        feeds@,
                        next_poll@,
                        j as int,
                        #[trigger] old_out[q] as int,
                    ) by {
                        if q > p {
                            lemma_due_before_transitive(
                                feeds@,
                                next_poll@,
                                j as int,
                                old_out[p as int] as int,
                                old_out[q] as int,
                            );
                        }
                    }
                }
                out.insert(p, j);
                let ghost ins = out@;
                proof {
                    assert(ins =~= old_out.insert(p as int, j));
                    assert forall|a: int, b: int| 0 <= a < b < ins.len() implies due_before(
                        feeds@,
                        next_poll@,
                        ins[a] as int,
                        ins[b] as int,
                    ) by {
                        if b < p {
                        } else if b == p {
                        } else if a < p {
                            lemma_due_before_transitive(
                                feeds@,
                                next_poll@,
                                ins[a] as int,
                                j as int,
                                ins[b] as int,
                            );
                        } else if a == p {
                        } else {
                            assert(ins[a] == old_out[a - 1]);
                            assert(ins[b] == old_out[b - 1]);
                        }
                    }
                    assert forall|x: int|
                        0 <= x < j && is_due(next_poll@, x, now_ms) && !ins.contains(
                            x as usize,
                        ) implies ins.len() == limit + 1 && forall|k: int|
                        0 <= k < ins.len() - 1 ==> due_before(
                            feeds@,
                            next_poll@,
                            ins[k] as int,
                            x,
                        ) by {
                        if !old_out.contains(x as usize) {
                            assert forall|k: int| 0 <= k < ins.len() - 1 implies due_before(
                                feeds@,
                                next_poll@,
                                ins[k] as int,
                                x,
                            ) by {
                                if k < p {
                                    assert(ins[k] == old_out[k]);
                                } else if k == p {
                                    lemma_due_before_transitive(
                                        feeds@,
                                        next_poll@,
                                        j as int,
                                        old_out[p as int] as int,
                                        x,
                                    );
                                } else {
                                    assert(ins[k] == old_out[k - 1]);
                                }
                            }
                        } else {
                            let w = choose|w: int| 0 <= w < old_out.len() && old_out[w] == x as usize;
                            if w < p {
                                assert(ins[w] == x as usize);
                            } else {
                                assert(ins[w + 1] == x as usize);
                            }
                        }
                    }
                }
                if out.len() > limit {
                    let ghost full = out@;
                    out.pop();
                    proof {
                        assert(out@ =~= full.subrange(0, limit as int));
                        assert(full[p as int] == j);
                        let e = full[limit as int];
                        assert forall|x: int|
                            0 <= x <= j && is_due(next_poll@, x, now_ms) && !out@.contains(
                                x as usize,
                            ) implies out@.len() == limit && forall|k: int|
                            0 <= k < out@.len() ==> due_before(
                                feeds@,
                                next_poll@,
                                out@[k] as int,
                                x,
                            ) by {
                            if x as usize == e {
                                assert forall|k: int| 0 <= k < out@.len() implies due_before(
                                    feeds@,
                                    next_poll@,
                                    out@[k] as int,
                                    x,
                                ) by {
                                    assert(out@[k] == full[k]);
                                }
                            } else if full.contains(x as usize) {
                                let w = choose|w: int| 0 <= w < full.len() && full[w] == x as usize;
                                assert(w < limit);
                                assert(out@[w] == x as usize);
                            } else {
                                assert forall|k: int| 0 <= k < out@.len() implies due_before(
                                    feeds@,
                                    next_poll@,
                                    out@[k] as int,
                                    x,
                                ) by {
                                    assert(out@[k] == full[k]);
                                }
                            }
                        }
                    }
                } else {
                    proof {
                        assert(ins[p as int] == j);
                        assert(ins.contains(j));
                    }
                }
            } else {
                proof {
                    assert(p == out@.len());
                    assert(!out@.contains(j)) by {
                        if out@.contains(j) {
                            let w = choose|w: int| 0 <= w < out@.len() && out@[w] == j;
                            assert(out@[w] < j);
                        }
                    }
                }
            }
        }
        j = j + 1;
    }
    out
}

} // verus!
