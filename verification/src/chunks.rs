//! Splitting a finished assistant reply into the small deltas that are sent
//! to the chat view one after another.
use vstd::prelude::*;
use crate::text::{is_ws, is_whitespace, chars_of, string_of};

verus! {

/// The maximal runs of `s` whose characters are all whitespace or all
/// non-whitespace, in order.
pub open spec fn runs(s: Seq<char>) -> Seq<Seq<char>>
    decreases s.len(),
{
    if s.len() == 0 {
        Seq::empty()
    } else {
        let p = s.drop_last();
        let c = s.last();
        if p.len() == 0 || is_ws(p.last()) != is_ws(c) {
            runs(p).push(seq![c])
        } else {
            let r = runs(p);
            r.update(r.len() - 1, r.last().push(c))
        }
    }
}

/// `t` cut into consecutive pieces of `m` characters, the last one possibly
/// shorter.
pub open spec fn pieces(t: Seq<char>, m: nat) -> Seq<Seq<char>>
    recommends
        m > 0,
    decreases t.len(),
    when m > 0
{
    if t.len() <= m {
        seq![t]
    } else {
        seq![t.take(m as int)] + pieces(t.skip(m as int), m)
    }
}

/// The packing state: the chunks already closed and the chunk being filled.
pub struct Packing {
    pub done: Seq<Seq<char>>,
    pub cur: Seq<char>,
}

/// `done` with `cur` closed, if `cur` holds anything.
pub open spec fn close(done: Seq<Seq<char>>, cur: Seq<char>) -> Seq<Seq<char>> {
    if cur.len() > 0 {
        done.push(cur)
    } else {
        done
    }
}

/// One packing step: a run longer than `m` is cut into pieces of its own, a
/// run that still fits joins the current chunk, any other run starts a new one.
pub open spec fn pack_step(st: Packing, tok: Seq<char>, m: nat) -> Packing {
    if tok.len() > m {
        Packing { done: close(st.done, st.cur) + pieces(tok, m), cur: Seq::empty() }
    } else if st.cur.len() + tok.len() <= m {
        Packing { done: st.done, cur: st.cur + tok }
    } else {
        Packing { done: close(st.done, st.cur), cur: tok }
    }
}

/// The packing state after the runs `toks`, taken from the first.
pub open spec fn pack(toks: Seq<Seq<char>>, m: nat) -> Packing
    decreases toks.len(),
{
    if toks.len() == 0 {
        Packing { done: Seq::empty(), cur: Seq::empty() }
    } else {
        pack_step(pack(toks.drop_last(), m), toks.last(), m)
    }
}

/// The chunks of `content` for a limit of `max` characters per chunk (a limit
/// of zero counts as one): its whitespace and non-whitespace runs, packed
/// greedily into chunks of at most the limit.
pub open spec fn chunks_of(content: Seq<char>, max: nat) -> Seq<Seq<char>> {
    let m = if max == 0 { 1 } else { max };
    let st = pack(runs(content), m);
    close(st.done, st.cur)
}

/// The view of each string of `v`.
pub open spec fn views(v: Seq<String>) -> Seq<Seq<char>> {
    v.map_values(|s: String| s@)
}

/// The view of each character vector of `v`.
pub open spec fn char_views(v: Seq<Vec<char>>) -> Seq<Seq<char>> {
    v.map_values(|s: Vec<char>| s@)
}

/// Every piece of `c` holds at least one and at most `m` characters.
pub open spec fn well_sized(c: Seq<Seq<char>>, m: nat) -> bool {
    forall|i: int| 0 <= i < c.len() ==> 0 < #[trigger] c[i].len() <= m
}

proof fn lemma_flatten_push(a: Seq<Seq<char>>, x: Seq<char>)
    ensures
        a.push(x).flatten_alt() == a.flatten_alt() + x,
{
    assert(a.push(x).drop_last() =~= a);
}

/// One piece flattens to itself.
pub proof fn lemma_flatten_single(x: Seq<char>)
    ensures
        seq![x].flatten_alt() == x,
{
    let one: Seq<Seq<char>> = seq![x];
    assert(one.drop_last() =~= Seq::<Seq<char>>::empty());
    assert(Seq::<Seq<char>>::empty().flatten_alt() == Seq::<char>::empty());
    assert(one.flatten_alt() =~= x);
}

proof fn lemma_flatten_concat(a: Seq<Seq<char>>, b: Seq<Seq<char>>)
    ensures
        (a + b).flatten_alt() == a.flatten_alt() + b.flatten_alt(),
    decreases b.len(),
{
    if b.len() == 0 {
        assert(a + b =~= a);
        assert(a.flatten_alt() + b.flatten_alt() =~= a.flatten_alt());
    } else {
        assert((a + b).drop_last() =~= a + b.drop_last());
        lemma_flatten_concat(a, b.drop_last());
        assert((a + b).last() == b.last());
        assert(a.flatten_alt() + b.drop_last().flatten_alt() + b.last() =~= a.flatten_alt() + (
        b.drop_last().flatten_alt() + b.last()));
    }
}

proof fn lemma_runs_facts(s: Seq<char>)
    ensures
        runs(s).flatten_alt() == s,
        forall|i: int| 0 <= i < runs(s).len() ==> #[trigger] runs(s)[i].len() > 0,
        s.len() > 0 ==> runs(s).len() > 0,
    decreases s.len(),
{
    if s.len() > 0 {
        let p = s.drop_last();
        let c = s.last();
        lemma_runs_facts(p);
        let r = runs(p);
        if p.len() == 0 || is_ws(p.last()) != is_ws(c) {
            lemma_flatten_push(r, seq![c]);
            assert(p + seq![c] =~= s);
        } else {
            let r2 = r.update(r.len() - 1, r.last().push(c));
            assert(r2.drop_last() =~= r.drop_last());
            assert(r.flatten_alt() == r.drop_last().flatten_alt() + r.last());
            assert(r2.flatten_alt() == r2.drop_last().flatten_alt() + r2.last());
            assert(r2.flatten_alt() =~= r.flatten_alt().push(c));
            assert(p.push(c) =~= s);
        }
    }
}

proof fn lemma_pieces_facts(t: Seq<char>, m: nat)
    requires
        m > 0,
        t.len() > 0,
    ensures
        pieces(t, m).flatten_alt() == t,
        well_sized(pieces(t, m), m),
    decreases t.len(),
{
    if t.len() <= m {
        lemma_flatten_single(t);
    } else {
        lemma_pieces_facts(t.skip(m as int), m);
        let head: Seq<Seq<char>> = seq![t.take(m as int)];
        lemma_flatten_concat(head, pieces(t.skip(m as int), m));
        lemma_flatten_single(t.take(m as int));
        assert(t.take(m as int) + t.skip(m as int) =~= t);
        let all = head + pieces(t.skip(m as int), m);
        assert forall|i: int| 0 <= i < all.len() implies 0 < #[trigger] all[i].len() <= m by {
            if i > 0 {
                assert(all[i] == pieces(t.skip(m as int), m)[i - 1]);
            }
        }
    }
}

/// The runs of `s`, computed left to right.
fn split_runs(s: &[char]) -> (out: Vec<Vec<char>>)
    ensures
        char_views(out@) == runs(s@),
{
    let mut out: Vec<Vec<char>> = Vec::new();
    let mut cur: Vec<char> = Vec::new();
    let mut cur_ws = false;
    let mut i: usize = 0;
    while i < s.len()
        invariant
            i <= s@.len(),
            i == 0 ==> out@.len() == 0 && cur@.len() == 0,
            i > 0 ==> runs(s@.take(i as int)) == char_views(out@).push(cur@),
            i > 0 ==> cur_ws == is_ws(s@[i - 1]),
        decreases s@.len() - i,
    {
        let c = s[i];
        let w = is_whitespace(c);
        let ghost pre = s@.take(i as int);
        let ghost now = s@.take(i + 1 as int);
        assert(now.drop_last() =~= pre);
        assert(now.last() == c);
        if i == 0 {
            assert(pre.len() == 0);
            assert(runs(pre) == Seq::<Seq<char>>::empty());
            assert(char_views(out@) =~= Seq::<Seq<char>>::empty());
            cur.push(c);
            assert(cur@ =~= seq![c]);
            assert(runs(now) =~= seq![seq![c]]);
            assert(char_views(out@).push(cur@) =~= seq![seq![c]]);
        } else if w != cur_ws {
            assert(pre.last() == s@[i - 1]);
            let ghost old_out = out@;
            let ghost old_cur = cur@;
            let mut done: Vec<char> = Vec::new();
            std::mem::swap(&mut done, &mut cur);
            out.push(done);
            cur.push(c);
            assert(char_views(out@) =~= char_views(old_out).push(old_cur));
            assert(runs(now) == runs(pre).push(seq![c]));
            assert(char_views(out@).push(cur@) =~= runs(now));
        } else {
            assert(pre.last() == s@[i - 1]);
            let ghost old_cur = cur@;
            cur.push(c);
            let ghost r = runs(pre);
            assert(r.len() - 1 == char_views(out@).len());
            assert(r.last() == old_cur);
            assert(r.update(r.len() - 1, r.last().push(c)) =~= char_views(out@).push(cur@));
        }
        cur_ws = w;
        i = i + 1;
    }
    assert(s@.take(i as int) =~= s@);
    if i > 0 {
        let ghost old_out = out@;
        let ghost old_cur = cur@;
        out.push(cur);
        assert(char_views(out@) =~= char_views(old_out).push(old_cur));
    } else {
        assert(char_views(out@) =~= runs(s@));
    }
    out
}

/// Closes `cur` into `done` when it holds anything.
fn close_into(done: &mut Vec<Vec<char>>, cur: Vec<char>)
    ensures
        char_views(final(done)@) == close(char_views(old(done)@), cur@),
{
    if cur.len() > 0 {
        let ghost d = done@;
        done.push(cur);
        assert(char_views(done@) =~= char_views(d).push(cur@));
    }
}

/// Appends the pieces of `t` to `done`.
fn push_pieces(done: &mut Vec<Vec<char>>, t: &[char], m: usize)
    requires
        m > 0,
        t@.len() > m,
    ensures
        char_views(final(done)@) == char_views(old(done)@) + pieces(t@, m as nat),
{
    let ghost d0 = char_views(done@);
    let mut start: usize = 0;
    assert(t@.skip(0) =~= t@);
    loop
        invariant
            m > 0,
            t@.len() > m,
            start < t@.len(),
            d0 == char_views(old(done)@),
            d0 + pieces(t@, m as nat) == char_views(done@) + pieces(t@.skip(start as int), m as nat),
        decreases t@.len() - start,
    {
        let rest = t.len() - start;
        let end = if rest > m { start + m } else { t.len() };
        let mut piece: Vec<char> = Vec::new();
        let mut k: usize = start;
        while k < end
            invariant
                start <= k <= end <= t@.len(),
                piece@ == t@.subrange(start as int, k as int),
            decreases end - k,
        {
            piece.push(t[k]);
            k = k + 1;
            assert(piece@ =~= t@.subrange(start as int, k as int));
        }
        let ghost tail = t@.skip(start as int);
        let ghost before = char_views(done@);
        done.push(piece);
        assert(char_views(done@) =~= before.push(t@.subrange(start as int, end as int)));
        if rest > m {
            assert(tail.take(m as int) =~= t@.subrange(start as int, end as int));
            assert(tail.skip(m as int) =~= t@.skip(end as int));
            assert(pieces(tail, m as nat) == seq![tail.take(m as int)] + pieces(tail.skip(m as int), m as nat));
            assert(before + pieces(tail, m as nat) =~= char_views(done@) + pieces(t@.skip(end as int), m as nat));
            start = end;
        } else {
            assert(tail =~= t@.subrange(start as int, end as int));
            assert(pieces(tail, m as nat) == seq![tail]);
            assert(before + pieces(tail, m as nat) =~= char_views(done@));
            assert(d0 + pieces(t@, m as nat) == char_views(done@));
            return;
        }
    }
}

/// Splits `content` into non-empty chunks of at most `max_chars_per_chunk`
/// characters (a limit of zero counts as one) that follow word boundaries
/// where they can: whitespace and non-whitespace runs are packed greedily,
/// and a run longer than the limit is cut into pieces of its own.
pub fn chunk_assistant_content(content: &str, max_chars_per_chunk: usize) -> (r: Vec<String>)
    ensures
        views(r@) == chunks_of(content@, max_chars_per_chunk as nat),
        views(r@).flatten_alt() == content@,
        well_sized(views(r@), if max_chars_per_chunk == 0 { 1 } else { max_chars_per_chunk as nat }),
        content@.len() == 0 <==> r@.len() == 0,
{
    let m: usize = if max_chars_per_chunk == 0 { 1 } else { max_chars_per_chunk };
    let ghost mn = m as nat;
    let chars = chars_of(content);
    let toks = split_runs(chars.as_slice());
    proof {
        lemma_runs_facts(content@);
    }
    let ghost all_toks = runs(content@);
    let mut done: Vec<Vec<char>> = Vec::new();
    let mut cur: Vec<char> = Vec::new();
    let mut i: usize = 0;
    assert(all_toks.take(0) =~= Seq::<Seq<char>>::empty());
    assert(char_views(done@) =~= Seq::<Seq<char>>::empty());
    assert(Seq::<Seq<char>>::empty().flatten_alt() == Seq::<char>::empty());
    assert(char_views(done@).flatten_alt() + cur@ =~= all_toks.take(0).flatten_alt());
    while i < toks.len()
        invariant
            m > 0,
            mn == m as nat,
            char_views(toks@) == all_toks,
            all_toks == runs(content@),
            all_toks.flatten_alt() == content@,
            forall|j: int| 0 <= j < all_toks.len() ==> #[trigger] all_toks[j].len() > 0,
            i <= toks@.len(),
            pack(all_toks.take(i as int), mn) == (Packing { done: char_views(done@), cur: cur@ }),
            char_views(done@).flatten_alt() + cur@ == all_toks.take(i as int).flatten_alt(),
            well_sized(char_views(done@), mn),
            cur@.len() <= mn,
        decreases toks@.len() - i,
    {
        let tok = &toks[i];
        let tl = tok.len();
        let ghost st = Packing { done: char_views(done@), cur: cur@ };
        let ghost tv = tok@;
        assert(tv == all_toks[i as int]);
        assert(all_toks.take(i + 1 as int).drop_last() =~= all_toks.take(i as int));
        assert(all_toks.take(i + 1 as int).last() == tv);
        assert(pack(all_toks.take(i + 1 as int), mn) == pack_step(st, tv, mn));
        proof {
            lemma_flatten_push(all_toks.take(i as int), tv);
            assert(all_toks.take(i as int).push(tv) =~= all_toks.take(i + 1 as int));
        }
        if tl > m {
            let mut old_cur: Vec<char> = Vec::new();
            std::mem::swap(&mut old_cur, &mut cur);
            let ghost d1 = char_views(done@);
            close_into(&mut done, old_cur);
            proof {
                if st.cur.len() > 0 {
                    lemma_flatten_push(d1, st.cur);
                }
                assert(char_views(done@).flatten_alt() == d1.flatten_alt() + st.cur);
            }
            let ghost d2 = char_views(done@);
            push_pieces(&mut done, tok.as_slice(), m);
            proof {
                lemma_pieces_facts(tv, mn);
                lemma_flatten_concat(d2, pieces(tv, mn));
                let p = pieces(tv, mn);
                assert forall|j: int| 0 <= j < char_views(done@).len() implies 0 < #[trigger] char_views(done@)[j].len() <= mn by {
                    if j >= d2.len() {
                        assert(char_views(done@)[j] == p[j - d2.len()]);
                    } else {
                        assert(char_views(done@)[j] == d2[j]);
                    }
                }
                assert(cur@ =~= Seq::<char>::empty());
                assert(char_views(done@).flatten_alt() + cur@ =~= d2.flatten_alt() + tv);
            }
        } else if tl <= m - cur.len() {
            let mut k: usize = 0;
            let ghost c0 = cur@;
            while k < tl
                invariant
                    tl == tok@.len(),
                    k <= tl,
                    cur@ == c0 + tok@.take(k as int),
                decreases tl - k,
            {
                cur.push(tok[k]);
                k = k + 1;
                assert(cur@ =~= c0 + tok@.take(k as int));
            }
            assert(tok@.take(k as int) =~= tok@);
            assert(char_views(done@).flatten_alt() + cur@ =~= char_views(done@).flatten_alt() + c0 + tv);
        } else {
            let ghost d1 = char_views(done@);
            let mut old_cur: Vec<char> = Vec::new();
            std::mem::swap(&mut old_cur, &mut cur);
            close_into(&mut done, old_cur);
            proof {
                if st.cur.len() > 0 {
                    lemma_flatten_push(d1, st.cur);
                    assert forall|j: int| 0 <= j < char_views(done@).len() implies 0 < #[trigger] char_views(done@)[j].len() <= mn by {
                        if j < d1.len() {
                            assert(char_views(done@)[j] == d1[j]);
                        }
                    }
                }
            }
            let mut k: usize = 0;
            while k < tl
                invariant
                    tl == tok@.len(),
                    k <= tl,
                    cur@ == tok@.take(k as int),
                decreases tl - k,
            {
                cur.push(tok[k]);
                k = k + 1;
                assert(cur@ =~= tok@.take(k as int));
            }
            assert(tok@.take(k as int) =~= tok@);
        }
        i = i + 1;
    }
    assert(all_toks.take(i as int) =~= all_toks);
    let ghost df = char_views(done@);
    let ghost cf = cur@;
    close_into(&mut done, cur);
    proof {
        if cf.len() > 0 {
            lemma_flatten_push(df, cf);
            assert forall|j: int| 0 <= j < char_views(done@).len() implies 0 < #[trigger] char_views(done@)[j].len() <= mn by {
                if j < df.len() {
                    assert(char_views(done@)[j] == df[j]);
                }
            }
        } else {
            assert(df.flatten_alt() + cf =~= df.flatten_alt());
        }
    }
    let mut out: Vec<String> = Vec::new();
    let mut j: usize = 0;
    while j < done.len()
        invariant
            j <= done@.len(),
            views(out@) == char_views(done@).take(j as int),
        decreases done@.len() - j,
    {
        let s = string_of(done[j].as_slice());
        let ghost o = out@;
        out.push(s);
        assert(views(out@) =~= views(o).push(s@));
        assert(char_views(done@).take(j + 1 as int) =~= char_views(done@).take(j as int).push(done@[j as int]@));
        j = j + 1;
    }
    assert(char_views(done@).take(j as int) =~= char_views(done@));
    proof {
        if content@.len() == 0 {
            assert(all_toks.len() == 0);
        } else {
            assert(views(out@).flatten_alt().len() > 0);
            if out@.len() == 0 {
                assert(views(out@) =~= Seq::<Seq<char>>::empty());
            }
        }
    }
    out
}

/// Proof that the chunks of any reply put back together give the reply, that
/// none is empty and that none is longer than the limit.
pub proof fn lemma_chunks_rebuild_content(content: Seq<char>, max: nat)
    ensures
        chunks_of(content, max).flatten_alt() == content,
        well_sized(chunks_of(content, max), if max == 0 { 1 } else { max }),
{
    let m: nat = if max == 0 { 1 } else { max };
    lemma_runs_facts(content);
    lemma_pack_facts(runs(content), m);
    let st = pack(runs(content), m);
    if st.cur.len() > 0 {
        lemma_flatten_push(st.done, st.cur);
        assert forall|j: int| 0 <= j < close(st.done, st.cur).len() implies 0 < #[trigger] close(st.done, st.cur)[j].len() <= m by {
            if j < st.done.len() {
                assert(close(st.done, st.cur)[j] == st.done[j]);
            }
        }
    } else {
        assert(st.done.flatten_alt() + st.cur =~= st.done.flatten_alt());
    }
}

proof fn lemma_pack_facts(toks: Seq<Seq<char>>, m: nat)
    requires
        m > 0,
        forall|j: int| 0 <= j < toks.len() ==> #[trigger] toks[j].len() > 0,
    ensures
        pack(toks, m).done.flatten_alt() + pack(toks, m).cur == toks.flatten_alt(),
        well_sized(pack(toks, m).done, m),
        pack(toks, m).cur.len() <= m,
    decreases toks.len(),
{
    if toks.len() == 0 {
        assert(Seq::<Seq<char>>::empty().flatten_alt() + Seq::<char>::empty() =~= toks.flatten_alt());
    } else {
        let p = toks.drop_last();
        let t = toks.last();
        assert forall|j: int| 0 <= j < p.len() implies #[trigger] p[j].len() > 0 by {
            assert(p[j] == toks[j]);
        }
        lemma_pack_facts(p, m);
        let st = pack(p, m);
        assert(toks[toks.len() - 1] == t);
        let d1 = close(st.done, st.cur);
        if st.cur.len() > 0 {
            lemma_flatten_push(st.done, st.cur);
        } else {
            assert(st.done.flatten_alt() + st.cur =~= st.done.flatten_alt());
        }
        assert(d1.flatten_alt() == st.done.flatten_alt() + st.cur);
        assert forall|j: int| 0 <= j < d1.len() implies 0 < #[trigger] d1[j].len() <= m by {
            if j < st.done.len() {
                assert(d1[j] == st.done[j]);
            }
        }
        if t.len() > m {
            lemma_pieces_facts(t, m);
            lemma_flatten_concat(d1, pieces(t, m));
            let all = d1 + pieces(t, m);
            assert forall|j: int| 0 <= j < all.len() implies 0 < #[trigger] all[j].len() <= m by {
                if j >= d1.len() {
                    assert(all[j] == pieces(t, m)[j - d1.len()]);
                } else {
                    assert(all[j] == d1[j]);
                }
            }
            assert(all.flatten_alt() + Seq::<char>::empty() =~= d1.flatten_alt() + t);
        } else if st.cur.len() + t.len() <= m {
            assert(st.done.flatten_alt() + (st.cur + t) =~= st.done.flatten_alt() + st.cur + t);
        } else {
        }
    }
}

} // verus!
