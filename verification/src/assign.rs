//! The quick-assign popup: owners to suggest, and the sublabel a node gets when it is
//! assigned to someone.
//!
//! A sublabel is read as lines the way `str::lines` splits text: at `\n` or `\r\n`, with
//! the final line break optional.
use vstd::prelude::*;
use crate::model::{FlowchartDocument, Node};
use crate::messages::{decimal, decimal_string};
use crate::sorted::{ascending, insert_sorted, texts};
use crate::text::{
    after, begins_with, chars_begin_with, chars_of, first_line_after, is_whitespace, lemma_trim_shape, line_end, line_len,
    lower_chars, lowercase, push_all, slice_chars, trim, trimmed,
};
use crate::workload::owner_of;

verus! {

/// The lines of `s` as `str::lines` gives them: split at each `\n`, a `\r` just before it
/// dropped, and no line after a final `\n`.
pub open spec fn text_lines(s: Seq<char>) -> Seq<Seq<char>>
    decreases s.len(),
{
    if s.len() == 0 {
        Seq::empty()
    } else {
        let n = line_len(s) as int;
        if n < s.len() {
            let l = s.subrange(0, n);
            let l2 = if n > 0 && l[n - 1] == '\r' { l.drop_last() } else { l };
            seq![l2] + text_lines(after(s, n + 1))
        } else {
            seq![s]
        }
    }
}

/// The lines of `s`, as `str::lines` gives them.
pub fn split_lines(s: &str) -> (v: Vec<Vec<char>>)
    ensures
        v@.map_values(|l: Vec<char>| l@) == text_lines(s@),
{
    let cs = chars_of(s);
    let n = cs.len();
    let mut v: Vec<Vec<char>> = Vec::new();
    let mut start: usize = 0;
    assert(after(cs@, 0) =~= cs@);
    while start < n
        invariant
            0 <= start <= n,
            n == cs@.len(),
            cs@ == s@,
            v@.map_values(|l: Vec<char>| l@) + text_lines(after(cs@, start as int)) == text_lines(s@),
        decreases n - start,
    {
        let ghost rest = after(cs@, start as int);
        let ghost before = v@.map_values(|l: Vec<char>| l@);
        let end = line_end(&cs, start);
        let stop = if end > start && cs[end - 1] == '\r' && end < n { end - 1 } else { end };
        let line = slice_chars(&cs, start, stop);
        proof {
            let k = (end - start) as int;
            let l = rest.subrange(0, k);
            assert(rest.len() > 0);
            if end < n {
                if k > 0 && l[k - 1] == '\r' {
                    assert(line@ =~= l.drop_last());
                } else {
                    assert(line@ =~= l);
                }
                assert(after(rest, k + 1) =~= after(cs@, end + 1));
                assert(text_lines(rest) == seq![line@] + text_lines(after(cs@, end + 1)));
            } else {
                assert(line@ =~= rest);
                assert(text_lines(rest) == seq![line@]);
                assert(after(cs@, n as int) =~= Seq::<char>::empty());
            }
        }
        v.push(line);
        proof {
            assert(v@.map_values(|l: Vec<char>| l@) =~= before.push(line@));
        }
        if end < n {
            start = end + 1;
        } else {
            start = n;
            proof {
                assert(text_lines(after(cs@, n as int)) =~= Seq::<Seq<char>>::empty()) by {
                    assert(after(cs@, n as int).len() == 0);
                }
                assert(v@.map_values(|l: Vec<char>| l@) =~= before + seq![line@]);
            }
        }
    }
    proof {
        assert(text_lines(after(cs@, n as int)) =~= Seq::<Seq<char>>::empty()) by {
            assert(after(cs@, n as int).len() == 0);
        }
        assert(v@.map_values(|l: Vec<char>| l@) + Seq::<Seq<char>>::empty() =~= v@.map_values(|l: Vec<char>| l@));
    }
    v
}

/// The owner named by a line: the trimmed rest after `👤 `, when the line starts with it and
/// that rest is not blank.
pub open spec fn line_owner(l: Seq<char>) -> Option<Seq<char>> {
    if begins_with(l, "\u{1f464} "@) && trim(after(l, 2)).len() > 0 {
        Some(trim(after(l, 2)))
    } else {
        None
    }
}

/// Whether some line of some of the first `k` nodes' sublabels names `t` as owner.
pub open spec fn named_owner(nodes: Seq<Node>, k: int, t: Seq<char>) -> bool {
    exists|i: int, j: int|
        0 <= i < k && 0 <= j < text_lines(nodes[i].sublabel@).len() && line_owner(#[trigger] text_lines(nodes[i].sublabel@)[j])
            == Some(t)
}

/// The owner named by a line, if any.
fn owner_of_line(l: &Vec<char>) -> (r: Option<String>)
    ensures
        match r {
            Some(o) => line_owner(l@) == Some(o@),
            None => line_owner(l@).is_none(),
        },
{
    let mark = chars_of("\u{1f464} ");
    proof {
        reveal_strlit("\u{1f464} ");
    }
    if !chars_begin_with(l, &mark) {
        return None;
    }
    let rest = slice_chars(l, 2, l.len());
    let name = trimmed(&rest);
    if name.as_str().is_empty() {
        None
    } else {
        Some(name)
    }
}

/// Whether one of the first `j` lines of `ls` names `t` as owner.
pub open spec fn owner_among(ls: Seq<Seq<char>>, j: int, t: Seq<char>) -> bool {
    exists|u: int| 0 <= u < j && line_owner(#[trigger] ls[u]) == Some(t)
}

/// Every owner named on some line of the document's sublabels, sorted and each once: the
/// names the quick-assign popup can suggest.
pub fn known_owners(doc: &FlowchartDocument) -> (names: Vec<String>)
    ensures
        ascending(texts(names@)),
        forall|t: Seq<char>| texts(names@).contains(t) <==> named_owner(doc.nodes@, doc.nodes@.len() as int, t),
{
    let mut names: Vec<String> = Vec::new();
    let mut i: usize = 0;
    while i < doc.nodes.len()
        invariant
            0 <= i <= doc.nodes@.len(),
            ascending(texts(names@)),
            forall|t: Seq<char>| texts(names@).contains(t) <==> named_owner(doc.nodes@, i as int, t),
        decreases doc.nodes@.len() - i,
    {
        let lines = split_lines(doc.nodes[i].sublabel.as_str());
        let ghost ls = lines@.map_values(|l: Vec<char>| l@);
        let ghost at_start = texts(names@);
        let mut j: usize = 0;
        while j < lines.len()
            invariant
                0 <= j <= lines@.len(),
                0 <= i < doc.nodes@.len(),
                ls == lines@.map_values(|l: Vec<char>| l@),
                ls == text_lines(doc.nodes@[i as int].sublabel@),
                ascending(texts(names@)),
                forall|t: Seq<char>| #[trigger] texts(names@).contains(t) <==> (at_start.contains(t) || owner_among(ls, j as int, t)),
            decreases lines@.len() - j,
        {
            let ghost before = texts(names@);
            let found = owner_of_line(&lines[j]);
            assert(ls[j as int] == lines@[j as int]@);
            match found {
                Some(o) => {
                    insert_sorted(&mut names, o);
                },
                None => {},
            }
            proof {
                assert forall|t: Seq<char>| #[trigger] texts(names@).contains(t) <==> (at_start.contains(t) || owner_among(ls, j + 1, t)) by {
                    assert(before.contains(t) <==> (at_start.contains(t) || owner_among(ls, j as int, t)));
                    if owner_among(ls, j + 1, t) {
                        let u = choose|u: int| 0 <= u < j + 1 && line_owner(#[trigger] ls[u]) == Some(t);
                        if u < j {
                            assert(owner_among(ls, j as int, t));
                        }
                    }
                    if owner_among(ls, j as int, t) {
                        let u = choose|u: int| 0 <= u < j && line_owner(#[trigger] ls[u]) == Some(t);
                        assert(owner_among(ls, j + 1, t));
                    }
                    if line_owner(ls[j as int]) == Some(t) {
                        assert(owner_among(ls, j + 1, t));
                    }
                }
            }
            j = j + 1;
        }
        proof {
            assert forall|t: Seq<char>| texts(names@).contains(t) <==> named_owner(doc.nodes@, i + 1, t) by {
                if named_owner(doc.nodes@, i + 1, t) {
                    let (a, b) = choose|a: int, b: int|
                        0 <= a < i + 1 && 0 <= b < text_lines(doc.nodes@[a].sublabel@).len() && line_owner(
                            #[trigger] text_lines(doc.nodes@[a].sublabel@)[b],
                        ) == Some(t);
                    if a < i {
                        assert(named_owner(doc.nodes@, i as int, t));
                    } else {
                        assert(line_owner(ls[b]) == Some(t));
                    }
                }
                if at_start.contains(t) {
                    assert(named_owner(doc.nodes@, i as int, t));
                    let (a, b) = choose|a: int, b: int|
                        0 <= a < i && 0 <= b < text_lines(doc.nodes@[a].sublabel@).len() && line_owner(
                            #[trigger] text_lines(doc.nodes@[a].sublabel@)[b],
                        ) == Some(t);
                    assert(line_owner(text_lines(doc.nodes@[a].sublabel@)[b]) == Some(t));
                }
                if owner_among(ls, lines@.len() as int, t) {
                    let u = choose|u: int| 0 <= u < lines@.len() && line_owner(#[trigger] ls[u]) == Some(t);
                    assert(line_owner(text_lines(doc.nodes@[i as int].sublabel@)[u]) == Some(t));
                }
            }
        }
        i = i + 1;
    }
    names
}

/// The names suggested for the text `typed`: those whose lowercase form starts with the
/// lowercase form of the text (all when it is empty), at most four, in order.
pub open spec fn suggested(names: Seq<Seq<char>>, q: Seq<char>) -> Seq<Seq<char>>
    decreases names.len(),
{
    if names.len() == 0 {
        Seq::empty()
    } else {
        let r = suggested(names.drop_last(), q);
        if r.len() < 4 && (q.len() == 0 || begins_with(lowercase(names.last()), q)) {
            r.push(names.last())
        } else {
            r
        }
    }
}

/// The names suggested for what was typed into the quick-assign popup.
pub fn suggestions(names: &Vec<String>, typed: &str) -> (r: Vec<String>)
    ensures
        texts(r@) == suggested(texts(names@), lowercase(typed@)),
{
    let q = lower_chars(&chars_of(typed));
    let mut r: Vec<String> = Vec::new();
    let mut k: usize = 0;
    while k < names.len()
        invariant
            0 <= k <= names@.len(),
            q@ == lowercase(typed@),
            texts(r@) == suggested(texts(names@).take(k as int), q@),
        decreases names@.len() - k,
    {
        proof {
            let pre = texts(names@).take(k + 1);
            assert(pre.drop_last() =~= texts(names@).take(k as int));
            assert(pre.last() == names@[k as int]@);
        }
        if r.len() < 4 {
            let lowered = lower_chars(&chars_of(names[k].as_str()));
            if q.len() == 0 || chars_begin_with(&lowered, &q) {
                let ghost before = texts(r@);
                r.push(names[k].clone());
                assert(texts(r@) =~= before.push(names@[k as int]@));
            }
        }
        k = k + 1;
    }
    assert(texts(names@).take(names@.len() as int) =~= texts(names@));
    r
}

/// The lines joined with line breaks between them.
pub open spec fn join_lines(ls: Seq<Seq<char>>) -> Seq<char>
    decreases ls.len(),
{
    if ls.len() == 0 {
        Seq::empty()
    } else if ls.len() == 1 {
        ls[0]
    } else {
        join_lines(ls.drop_last()) + seq!['\n'] + ls.last()
    }
}

/// The lines of `ls` that are kept beside a new owner line: those that are not empty and do
/// not start with `👤 `.
pub open spec fn kept_lines(ls: Seq<Seq<char>>) -> Seq<Seq<char>>
    decreases ls.len(),
{
    if ls.len() == 0 {
        Seq::empty()
    } else {
        let r = kept_lines(ls.drop_last());
        if ls.last().len() > 0 && !begins_with(ls.last(), "\u{1f464} "@) {
            r.push(ls.last())
        } else {
            r
        }
    }
}

/// The sublabel `s` after assigning its node to `typed`: a line `👤 ` and the trimmed name
/// first (none when the name is blank), then the other non-empty lines of `s` that do not
/// start with `👤 `, joined by line breaks.
pub open spec fn reassigned(s: Seq<char>, typed: Seq<char>) -> Seq<char> {
    let name = trim(typed);
    let rest = kept_lines(text_lines(s));
    if name.len() > 0 {
        join_lines(seq!["\u{1f464} "@ + name] + rest)
    } else {
        join_lines(rest)
    }
}

/// The sublabel `s` after assigning its node to `typed`.
pub fn reassign_sublabel(s: &str, typed: &str) -> (r: String)
    ensures
        r@ == reassigned(s@, typed@),
{
    let name = trimmed(&chars_of(typed));
    let lines = split_lines(s);
    let mark = chars_of("\u{1f464} ");
    proof {
        reveal_strlit("\u{1f464} ");
    }
    let ghost ls = lines@.map_values(|l: Vec<char>| l@);
    let mut parts: Vec<Vec<char>> = Vec::new();
    let ghost mut head: Seq<Seq<char>> = Seq::empty();
    if !name.as_str().is_empty() {
        let mut first = chars_of("\u{1f464} ");
        let nc = chars_of(name.as_str());
        let mut t: usize = 0;
        while t < nc.len()
            invariant
                0 <= t <= nc@.len(),
                first@ == "\u{1f464} "@ + nc@.take(t as int),
            decreases nc@.len() - t,
        {
            first.push(nc[t]);
            assert(nc@.take(t + 1) =~= nc@.take(t as int).push(nc@[t as int]));
            t = t + 1;
        }
        assert(nc@.take(nc@.len() as int) =~= nc@);
        parts.push(first);
        proof {
            head = seq!["\u{1f464} "@ + name@];
        }
    }
    assert(parts@.map_values(|l: Vec<char>| l@) =~= head);
    let mut k: usize = 0;
    while k < lines.len()
        invariant
            0 <= k <= lines@.len(),
            ls == lines@.map_values(|l: Vec<char>| l@),
            ls == text_lines(s@),
            mark@ == "\u{1f464} "@,
            parts@.map_values(|l: Vec<char>| l@) == head + kept_lines(ls.take(k as int)),
        decreases lines@.len() - k,
    {
        proof {
            let pre = ls.take(k + 1);
            assert(pre.drop_last() =~= ls.take(k as int));
            assert(pre.last() == lines@[k as int]@);
        }
        let l = &lines[k];
        if l.len() > 0 && !chars_begin_with(l, &mark) {
            let ghost before = parts@.map_values(|l: Vec<char>| l@);
            parts.push(slice_chars(l, 0, l.len()));
            assert(l@.subrange(0, l@.len() as int) =~= l@);
            assert(parts@.map_values(|l: Vec<char>| l@) =~= before.push(lines@[k as int]@));
            assert(head + kept_lines(ls.take(k + 1)) =~= (head + kept_lines(ls.take(k as int))).push(ls[k as int]));
        }
        k = k + 1;
    }
    assert(ls.take(ls.len() as int) =~= ls);
    let ghost all = parts@.map_values(|l: Vec<char>| l@);
    assert(all == if name@.len() > 0 { seq!["\u{1f464} "@ + name@] + kept_lines(ls) } else { kept_lines(ls) }) by {
        if name@.len() == 0 {
            assert(head + kept_lines(ls) =~= kept_lines(ls));
        }
    }
    // Join the parts with line breaks.
    let mut r = String::new();
    let mut p: usize = 0;
    while p < parts.len()
        invariant
            0 <= p <= parts@.len(),
            all == parts@.map_values(|l: Vec<char>| l@),
            r@ == join_lines(all.take(p as int)),
        decreases parts@.len() - p,
    {
        let ghost before = r@;
        if p > 0 {
            r.push('\n');
        }
        let part = &parts[p];
        let mut t: usize = 0;
        let ghost base = r@;
        while t < part.len()
            invariant
                0 <= t <= part@.len(),
                r@ == base + part@.take(t as int),
            decreases part@.len() - t,
        {
            r.push(part[t]);
            assert(part@.take(t + 1) =~= part@.take(t as int).push(part@[t as int]));
            t = t + 1;
        }
        proof {
            assert(part@.take(part@.len() as int) =~= part@);
            let pre = all.take(p + 1);
            assert(pre.drop_last() =~= all.take(p as int));
            assert(pre.last() == part@);
            if p == 0 {
                assert(pre.len() == 1);
                assert(r@ =~= pre[0]);
            } else {
                assert(r@ =~= before + seq!['\n'] + part@);
            }
        }
        p = p + 1;
    }
    assert(all.take(all.len() as int) =~= all);
    r
}

/// The status message after assigning `count` nodes to `name`.
pub open spec fn assigned_message(name: Seq<char>, count: nat) -> Seq<char> {
    if count == 1 {
        "Assigned: "@ + name
    } else {
        "Assigned: "@ + name + " ("@ + decimal(count) + " nodes)"@
    }
}

/// The status message after assigning `count` nodes to `name`.
pub fn assigned_message_text(name: &str, count: usize) -> (s: String)
    ensures
        s@ == assigned_message(name@, count as nat),
{
    let mut s = String::new();
    push_all(&mut s, "Assigned: ");
    push_all(&mut s, name);
    if count != 1 {
        push_all(&mut s, " (");
        push_all(&mut s, decimal_string(count).as_str());
        push_all(&mut s, " nodes)");
    }
    assert(s@ =~= assigned_message(name@, count as nat));
    s
}

/// Trimming a trimmed string changes nothing.
pub proof fn lemma_trim_twice(s: Seq<char>)
    ensures
        trim(trim(s)) == trim(s),
{
    lemma_trim_shape(s);
    let u = trim(s);
    if u.len() > 0 {
        assert(!is_whitespace(u[0]));
        assert(crate::text::trim_start(u) == u);
        assert(!is_whitespace(u.last()));
        assert(crate::text::trim_end(u) == u);
    } else {
        assert(crate::text::trim_start(u) == u);
        assert(crate::text::trim_end(u) == u);
    }
}

proof fn lemma_joined_first(a: Seq<char>, r: Seq<Seq<char>>)
    ensures
        join_lines(seq![a] + r) == if r.len() == 0 { a } else { a + seq!['\n'] + join_lines(r) },
    decreases r.len(),
{
    let all = seq![a] + r;
    if r.len() == 0 {
        assert(all =~= seq![a]);
        assert(join_lines(all) == all[0]);
    } else if r.len() == 1 {
        assert(all.drop_last() =~= seq![a]);
        assert(join_lines(seq![a]) == seq![a][0]);
        assert(all.last() == r[0]);
        assert(join_lines(all) == join_lines(all.drop_last()) + seq!['\n'] + all.last());
        assert(join_lines(r) == r[0]);
    } else {
        lemma_joined_first(a, r.drop_last());
        assert(all.drop_last() =~= seq![a] + r.drop_last());
        assert(all.last() == r.last());
        assert(join_lines(all) == join_lines(all.drop_last()) + seq!['\n'] + all.last());
        assert(join_lines(r) == join_lines(r.drop_last()) + seq!['\n'] + r.last());
        assert(a + seq!['\n'] + join_lines(r.drop_last()) + seq!['\n'] + r.last() =~= a + seq!['\n'] + (join_lines(r.drop_last()) + seq!['\n'] + r.last()));
    }
}

proof fn lemma_line_len_of(a: Seq<char>, x: Seq<char>)
    requires
        !a.contains('\n'),
        x.len() == 0 || x[0] == '\n',
    ensures
        line_len(a + x) == a.len(),
    decreases a.len(),
{
    if a.len() == 0 {
        assert(a + x =~= x);
    } else {
        assert(a[0] != '\n');
        let t = a.drop_first();
        assert(!t.contains('\n')) by {
            if t.contains('\n') {
                let i = choose|i: int| 0 <= i < t.len() && t[i] == '\n';
                assert(a[i + 1] == '\n');
            }
        }
        lemma_line_len_of(t, x);
        assert((a + x).drop_first() =~= t + x);
    }
}

/// After a node is assigned to a name without line breaks, the first line of its sublabel
/// names that name, trimmed, as its owner, as the workload table reads it.
pub proof fn law_assigned_owner(s: Seq<char>, typed: Seq<char>)
    requires
        trim(typed).len() > 0,
        !trim(typed).contains('\n'),
    ensures
        first_line_after(reassigned(s, typed), "\u{1f464} "@) == Some(trim(typed)),
        forall|n: Node| #[trigger] n.sublabel@ == reassigned(s, typed) ==> owner_of(n) == trim(typed),
{
    reveal_strlit("\u{1f464} ");
    let name = trim(typed);
    let a = "\u{1f464} "@ + name;
    let rest = kept_lines(text_lines(s));
    lemma_joined_first(a, rest);
    let whole = reassigned(s, typed);
    let x = if rest.len() == 0 { Seq::<char>::empty() } else { seq!['\n'] + join_lines(rest) };
    assert(whole =~= a + x);
    assert(!a.contains('\n')) by {
        if a.contains('\n') {
            let i = choose|i: int| 0 <= i < a.len() && a[i] == '\n';
            if i >= 2 {
                assert(name[i - 2] == '\n');
            }
        }
    }
    lemma_line_len_of(a, x);
    assert(whole.subrange(0, a.len() as int) =~= a);
    assert(a.subrange(0, 2) =~= "\u{1f464} "@);
    assert(after(a, 2) =~= name);
    lemma_trim_twice(typed);
}

} // verus!
