//! The cookie header of the e-card session: `key1=val1; key2=val2`.
use vstd::prelude::*;
use vstd::string::*;

use crate::text::{
    chars_of, occurs_at, copy_range, find_char_exec, find_char_from, is_white_space, lemma_split_pieces_lack_sep,
    lemma_split_plain, lemma_split_sep_then_plain, lemma_trim_idempotent, lemma_trim_keeps_absent,
    lemma_trim_leading_space, lemma_trim_of_trimmed, push_char, split_char, split_char_exec,
    starts_with, starts_with_exec, string_of, trim, trimmed_chars,
};

verus! {

/// `(name, value)` of a `Set-Cookie` header: the text before the first `;`,
/// split at its first `=`, both halves trimmed. `None` when the header has no
/// `;` or that part has no `=`.
pub open spec fn set_cookie_pair(h: Seq<char>) -> Option<(Seq<char>, Seq<char>)> {
    match find_char_from(h, ';', 0) {
        None => None,
        Some(i) => {
            let kv = h.subrange(0, i);
            match find_char_from(kv, '=', 0) {
                None => None,
                Some(j) => Some((trim(kv.subrange(0, j)), trim(kv.subrange(j + 1, kv.len() as int)))),
            }
        },
    }
}

/// Each piece trimmed.
pub open spec fn trim_all(ps: Seq<Seq<char>>) -> Seq<Seq<char>>
    decreases ps.len(),
{
    if ps.len() == 0 {
        ps
    } else {
        trim_all(ps.drop_last()).push(trim(ps.last()))
    }
}

/// The pieces that do not start with `prefix`, in order.
pub open spec fn without_prefix(ps: Seq<Seq<char>>, prefix: Seq<char>) -> Seq<Seq<char>>
    decreases ps.len(),
{
    if ps.len() == 0 {
        ps
    } else if starts_with(ps.last(), prefix) {
        without_prefix(ps.drop_last(), prefix)
    } else {
        without_prefix(ps.drop_last(), prefix).push(ps.last())
    }
}

/// The pieces joined with `sep` between them.
pub open spec fn join(ps: Seq<Seq<char>>, sep: Seq<char>) -> Seq<char>
    decreases ps.len(),
{
    if ps.len() == 0 {
        Seq::empty()
    } else if ps.len() == 1 {
        ps[0]
    } else {
        join(ps.drop_last(), sep) + sep + ps.last()
    }
}

/// The cookies of a header string: its `;`-separated pieces, trimmed.
pub open spec fn cookie_pieces(s: Seq<char>) -> Seq<Seq<char>> {
    trim_all(split_char(s, ';'))
}

pub open spec fn cookie_entry(name: Seq<char>, value: Seq<char>) -> Seq<char> {
    name + seq!['='] + value
}

/// The cookies that stay when a cookie named `name` is set.
pub open spec fn kept_cookies(cookies: Seq<char>, name: Seq<char>) -> Seq<Seq<char>> {
    without_prefix(cookie_pieces(cookies), name + seq!['='])
}

/// The header after a `Set-Cookie` value is taken in.
pub open spec fn add_set_cookie(cookies: Seq<char>, h: Seq<char>) -> Seq<char> {
    match set_cookie_pair(h) {
        None => cookies,
        Some((n, v)) => if n.len() == 0 || v.len() == 0 {
            cookies
        } else {
            let kept = join(kept_cookies(cookies, n), "; "@);
            if kept.len() == 0 {
                cookie_entry(n, v)
            } else {
                kept + "; "@ + cookie_entry(n, v)
            }
        },
    }
}

/// The header made of `(name, value)` pairs, in order.
pub open spec fn entries_header(entries: Seq<(Seq<char>, Seq<char>)>) -> Seq<char> {
    join(entries.map_values(|e: (Seq<char>, Seq<char>)| cookie_entry(e.0, e.1)), "; "@)
}

/// `(name, value)` of a stored piece: the text split at its first `=`, both
/// halves trimmed; `None` without `=` or with an empty name.
pub open spec fn piece_pair(p: Seq<char>) -> Option<(Seq<char>, Seq<char>)> {
    match find_char_from(p, '=', 0) {
        None => None,
        Some(j) => {
            let k = trim(p.subrange(0, j));
            if k.len() == 0 {
                None
            } else {
                Some((k, trim(p.subrange(j + 1, p.len() as int))))
            }
        },
    }
}

/// The `(name, value)` pairs of the stored pieces, in order.
pub open spec fn piece_pairs(ps: Seq<Seq<char>>) -> Seq<(Seq<char>, Seq<char>)>
    decreases ps.len(),
{
    if ps.len() == 0 {
        Seq::empty()
    } else {
        match piece_pair(ps.last()) {
            Some(kv) => piece_pairs(ps.drop_last()).push(kv),
            None => piece_pairs(ps.drop_last()),
        }
    }
}

/// The cookies of a session, kept as one `Cookie` header value.
pub struct CookieJar {
    cookies: String,
}

impl View for CookieJar {
    type V = Seq<char>;

    closed spec fn view(&self) -> Seq<char> {
        self.cookies@
    }
}

impl CookieJar {
    pub fn new() -> (r: Self)
        ensures
            r@ == Seq::<char>::empty(),
            holds_storable(r@),
    {
        let r = CookieJar { cookies: String::new() };
        proof {
            let es = Seq::<(Seq<char>, Seq<char>)>::empty();
            assert(entry_pieces(es) =~= Seq::<Seq<char>>::empty());
            assert(entries_header(es) == r@);
            assert(jar_entries_wf(es));
        }
        r
    }

    /// The current `Cookie` header value.
    pub fn get(&self) -> (r: &str)
        ensures
            r@ == self@,
    {
        self.cookies.as_str()
    }

    /// Replaces the jar with the given `(name, value)` pairs, joined as
    /// `name=value` with `; ` between them.
    pub fn restore_entries(&mut self, entries: &Vec<(String, String)>)
        ensures
            final(self)@ == entries_header(
                entries@.map_values(|e: (String, String)| (e.0@, e.1@)),
            ),
    {
        let ghost es = entries@.map_values(|e: (String, String)| (e.0@, e.1@));
        let ghost ps = es.map_values(|e: (Seq<char>, Seq<char>)| cookie_entry(e.0, e.1));
        let mut out = String::new();
        let mut i: usize = 0;
        while i < entries.len()
            invariant
                i <= entries.len(),
                es == entries@.map_values(|e: (String, String)| (e.0@, e.1@)),
                ps == es.map_values(|e: (Seq<char>, Seq<char>)| cookie_entry(e.0, e.1)),
                out@ == join(ps.subrange(0, i as int), "; "@),
            decreases entries.len() - i,
        {
            proof {
                reveal_strlit("; ");
                reveal_strlit("=");
            }
            let ghost before = out@;
            if i > 0 {
                out.append("; ");
            }
            out.append(entries[i].0.as_str());
            out.append("=");
            out.append(entries[i].1.as_str());
            proof {
                let sub = ps.subrange(0, i + 1);
                assert(sub.drop_last() =~= ps.subrange(0, i as int));
                assert(sub.last() == cookie_entry(entries@[i as int].0@, entries@[i as int].1@));
                if i == 0 {
                    assert(out@ =~= sub[0]);
                } else {
                    assert(out@ =~= before + "; "@ + sub.last());
                }
            }
            i = i + 1;
        }
        assert(ps.subrange(0, entries.len() as int) =~= ps);
        self.cookies = out;
    }

    /// The `(name, value)` pairs stored in the jar, in order, as the session
    /// export reads them (pieces without `=` or with an empty name skipped).
    pub fn entries(&self) -> (r: Vec<(String, String)>)
        ensures
            r@.map_values(|e: (String, String)| (e.0@, e.1@)) == piece_pairs(
                split_char(self@, ';').map_values(|p: Seq<char>| trim(p)),
            ),
            holds_storable(self@) ==> entries_header(
                r@.map_values(|e: (String, String)| (e.0@, e.1@)),
            ) == self@ && jar_entries_wf(r@.map_values(|e: (String, String)| (e.0@, e.1@))),
    {
        proof {
            if holds_storable(self@) {
                lemma_jar_export_restore(self@);
            }
        }
        let v = chars_of(self.cookies.as_str());
        let pieces = split_char_exec(&v, ';');
        let ghost ps = split_char(self@, ';').map_values(|p: Seq<char>| trim(p));
        let mut r: Vec<(String, String)> = Vec::new();
        let mut i: usize = 0;
        while i < pieces.len()
            invariant
                i <= pieces.len(),
                pieces@.map_values(|x: Vec<char>| x@) == split_char(v@, ';'),
                v@ == self@,
                ps == split_char(self@, ';').map_values(|p: Seq<char>| trim(p)),
                r@.map_values(|e: (String, String)| (e.0@, e.1@)) == piece_pairs(
                    ps.subrange(0, i as int),
                ),
            decreases pieces.len() - i,
        {
            let raw = &pieces[i];
            let p = trimmed_chars(raw, 0, raw.len());
            proof {
                assert(raw@ == split_char(v@, ';')[i as int]);
                assert(raw@.subrange(0, raw@.len() as int) =~= raw@);
                assert(p@ == ps[i as int]);
                let sub = ps.subrange(0, i + 1);
                assert(sub.drop_last() =~= ps.subrange(0, i as int));
                assert(sub.last() == p@);
            }
            let ghost old_r = r@.map_values(|e: (String, String)| (e.0@, e.1@));
            match find_char_exec(&p, '=', 0) {
                Some(j) => {
                    let k = trimmed_chars(&p, 0, j);
                    if k.len() > 0 {
                        let val = trimmed_chars(&p, j + 1, p.len());
                        r.push((string_of(&k), string_of(&val)));
                        assert(r@.map_values(|e: (String, String)| (e.0@, e.1@)) =~= old_r.push(
                            (k@, val@),
                        ));
                    }
                },
                None => {},
            }
            i = i + 1;
        }
        assert(ps.subrange(0, pieces.len() as int) =~= ps);
        r
    }

    /// Takes in a `Set-Cookie` header value (`name=value; path=...`): any
    /// stored cookie of that name is dropped and `name=value` is appended.
    /// A header without `;` or `=`, or with an empty name or value, changes
    /// nothing.
    pub fn add_from_set_cookie(&mut self, header_val: &str)
        ensures
            final(self)@ == add_set_cookie(old(self)@, header_val@),
            holds_storable(old(self)@) ==> holds_storable(final(self)@),
    {
        proof {
            if holds_storable(self@) {
                lemma_set_cookie_keeps_storable(self@, header_val@);
            }
        }
        let h = chars_of(header_val);
        let semi = match find_char_exec(&h, ';', 0) {
            Some(i) => i,
            None => return ,
        };
        let kv = copy_range(&h, 0, semi);
        let eq = match find_char_exec(&kv, '=', 0) {
            Some(j) => j,
            None => return ,
        };
        let name = trimmed_chars(&kv, 0, eq);
        let value = trimmed_chars(&kv, eq + 1, kv.len());
        if name.len() == 0 || value.len() == 0 {
            return ;
        }
        let mut prefix = name.clone();
        prefix.push('=');
        assert(prefix@ =~= name@ + seq!['=']);
        let c = chars_of(self.cookies.as_str());
        let pieces = split_char_exec(&c, ';');
        let ghost all = cookie_pieces(c@);
        let mut kept = String::new();
        let mut count: usize = 0;
        let ghost mut kept_seq: Seq<Seq<char>> = Seq::empty();
        let mut i: usize = 0;
        proof {
            lemma_trim_all_index(split_char(c@, ';'));
            assert forall|k: int| 0 <= k < pieces.len() implies #[trigger] all[k] == trim(
                pieces@[k]@,
            ) by {
                assert(pieces@.map_values(|x: Vec<char>| x@)[k] == pieces@[k]@);
            }
        }
        while i < pieces.len()
            invariant
                i <= pieces.len(),
                count <= i,
                pieces@.map_values(|x: Vec<char>| x@) == split_char(c@, ';'),
                all == cookie_pieces(c@),
                all.len() == pieces.len(),
                forall|k: int| 0 <= k < pieces.len() ==> #[trigger] all[k] == trim(pieces@[k]@),
                kept_seq == without_prefix(all.subrange(0, i as int), prefix@),
                kept@ == join(kept_seq, "; "@),
                count == kept_seq.len(),
            decreases pieces.len() - i,
        {
            proof {
                lemma_trim_all_index(split_char(c@, ';'));
                reveal_strlit("; ");
            }
            let raw = &pieces[i];
            let p = trimmed_chars(raw, 0, raw.len());
            proof {
                assert(raw@.subrange(0, raw@.len() as int) =~= raw@);
                let sub = all.subrange(0, i + 1);
                assert(sub.drop_last() =~= all.subrange(0, i as int));
                assert(sub.last() == p@);
            }
            if !starts_with_exec(&p, &prefix) {
                let ghost before = kept@;
                if count > 0 {
                    kept.append("; ");
                }
                let ps = string_of(&p);
                kept.append(ps.as_str());
                proof {
                    let ks = kept_seq.push(p@);
                    assert(ks.drop_last() =~= kept_seq);
                    if count == 0 {
                        assert(kept@ =~= ks[0]);
                    } else {
                        assert(kept@ =~= before + "; "@ + ks.last());
                    }
                    kept_seq = ks;
                }
                count = count + 1;
            }
            i = i + 1;
        }
        proof {
            assert(all.subrange(0, pieces.len() as int) =~= all);
            assert(kept@ == join(kept_cookies(c@, name@), "; "@));
        }
        let mut entry = string_of(&name);
        push_char(&mut entry, '=');
        let vs = string_of(&value);
        entry.append(vs.as_str());
        assert(entry@ =~= cookie_entry(name@, value@));
        if kept.unicode_len() == 0 {
            self.cookies = entry;
        } else {
            proof {
                reveal_strlit("; ");
            }
            kept.append("; ");
            kept.append(entry.as_str());
            self.cookies = kept;
        }
        proof {
            assert(kv@ == h@.subrange(0, semi as int));
        }
    }
}


/// A stored cookie piece: no `;` inside and no white space at either end.
pub open spec fn clean_piece(p: Seq<char>) -> bool {
    &&& forall|k: int| 0 <= k < p.len() ==> #[trigger] p[k] != ';'
    &&& (p.len() == 0 || (!is_white_space(p[0]) && !is_white_space(p.last())))
}

proof fn lemma_cookie_pieces_clean(s: Seq<char>)
    ensures
        forall|k: int|
            0 <= k < cookie_pieces(s).len() ==> clean_piece(#[trigger] cookie_pieces(s)[k]),
{
    let sp = split_char(s, ';');
    lemma_trim_all_index(sp);
    lemma_split_pieces_lack_sep(s, ';');
    assert forall|k: int| 0 <= k < cookie_pieces(s).len() implies clean_piece(
        #[trigger] cookie_pieces(s)[k],
    ) by {
        assert forall|m: int| 0 <= m < sp[k].len() implies #[trigger] sp[k][m] != ';' by {
            assert(split_char(s, ';')[k][m] != ';');
        }
        lemma_trim_keeps_absent(sp[k], ';');
        lemma_trim_idempotent(sp[k]);
    }
}

proof fn lemma_without_prefix_props(ps: Seq<Seq<char>>, pre: Seq<char>)
    requires
        forall|k: int| 0 <= k < ps.len() ==> clean_piece(#[trigger] ps[k]),
    ensures
        forall|k: int|
            0 <= k < without_prefix(ps, pre).len() ==> clean_piece(
                #[trigger] without_prefix(ps, pre)[k],
            ) && !starts_with(without_prefix(ps, pre)[k], pre),
    decreases ps.len(),
{
    if ps.len() > 0 {
        let t = ps.drop_last();
        assert forall|k: int| 0 <= k < t.len() implies clean_piece(#[trigger] t[k]) by {
            assert(t[k] == ps[k]);
        }
        lemma_without_prefix_props(t, pre);
        assert(clean_piece(ps[ps.len() - 1]));
        let r = without_prefix(t, pre);
        if !starts_with(ps.last(), pre) {
            assert forall|k: int| 0 <= k < r.push(ps.last()).len() implies clean_piece(
                #[trigger] r.push(ps.last())[k],
            ) && !starts_with(r.push(ps.last())[k], pre) by {
                if k < r.len() {
                    assert(r.push(ps.last())[k] == r[k]);
                }
            }
        }
    }
}

proof fn lemma_trim_all_single(x: Seq<char>)
    ensures
        trim_all(seq![x]) == seq![trim(x)],
{
    let s = seq![x];
    assert(s.drop_last() =~= Seq::<Seq<char>>::empty());
    assert(trim_all(Seq::<Seq<char>>::empty()) == Seq::<Seq<char>>::empty());
    assert(Seq::<Seq<char>>::empty().push(trim(x)) =~= seq![trim(x)]);
}

/// Splitting joined clean pieces at `;` and trimming gives the pieces back.
proof fn lemma_split_join(ps: Seq<Seq<char>>)
    requires
        ps.len() >= 1,
        forall|k: int| 0 <= k < ps.len() ==> clean_piece(#[trigger] ps[k]),
    ensures
        trim_all(split_char(join(ps, "; "@), ';')) == ps,
    decreases ps.len(),
{
    reveal_strlit("; ");
    if ps.len() == 1 {
        assert(clean_piece(ps[0]));
        lemma_split_plain(ps[0], ';');
        lemma_trim_of_trimmed(ps[0]);
        lemma_trim_all_single(ps[0]);
        assert(seq![ps[0]] =~= ps);
    } else {
        let t = ps.drop_last();
        assert forall|k: int| 0 <= k < t.len() implies clean_piece(#[trigger] t[k]) by {
            assert(t[k] == ps[k]);
        }
        lemma_split_join(t);
        let last = ps.last();
        assert(clean_piece(ps[ps.len() - 1]));
        let b = seq![' '] + last;
        assert forall|k: int| 0 <= k < b.len() implies #[trigger] b[k] != ';' by {
            if k > 0 {
                assert(b[k] == last[k - 1]);
            }
        }
        assert(join(ps, "; "@) =~= join(t, "; "@) + seq![';'] + b);
        lemma_split_sep_then_plain(join(t, "; "@), b, ';');
        lemma_trim_leading_space(last);
        lemma_trim_of_trimmed(last);
        let sp = split_char(join(t, "; "@), ';');
        assert(sp.push(b).drop_last() =~= sp);
        assert(trim_all(sp.push(b)) =~= ps);
    }
}

/// Setting a cookie replaces every stored cookie of that name: afterwards the
/// stored cookies are the others, in their old order, followed by
/// `name=value`, and none of the others carries that name.
pub proof fn lemma_set_cookie_replaces(cookies: Seq<char>, h: Seq<char>)
    requires
        set_cookie_pair(h) matches Some((n, v)) && n.len() > 0 && v.len() > 0,
    ensures
        ({
            let (n, v) = set_cookie_pair(h)->0;
            let kept = kept_cookies(cookies, n);
            let base = if join(kept, "; "@).len() == 0 { Seq::empty() } else { kept };
            &&& cookie_pieces(add_set_cookie(cookies, h)) == base.push(cookie_entry(n, v))
            &&& forall|k: int|
                0 <= k < base.len() ==> !starts_with(#[trigger] base[k], n + seq!['='])
        }),
{
    reveal_strlit("; ");
    let (n, v) = set_cookie_pair(h)->0;
    let i = find_char_from(h, ';', 0)->0;
    lemma_find_char_facts(h, ';', 0);
    let kv = h.subrange(0, i);
    let j = find_char_from(kv, '=', 0)->0;
    lemma_find_char_facts(kv, '=', 0);
    let nk = kv.subrange(0, j);
    let vk = kv.subrange(j + 1, kv.len() as int);
    assert forall|m: int| 0 <= m < nk.len() implies #[trigger] nk[m] != ';' by {
        assert(nk[m] == h[m]);
    }
    assert forall|m: int| 0 <= m < vk.len() implies #[trigger] vk[m] != ';' by {
        assert(vk[m] == h[j + 1 + m]);
    }
    lemma_trim_keeps_absent(nk, ';');
    lemma_trim_keeps_absent(vk, ';');
    lemma_trim_idempotent(nk);
    lemma_trim_idempotent(vk);
    let e = cookie_entry(n, v);
    assert forall|m: int| 0 <= m < e.len() implies #[trigger] e[m] != ';' by {
        if m < n.len() {
            assert(e[m] == n[m]);
        } else if m > n.len() {
            assert(e[m] == v[m - n.len() - 1]);
        }
    }
    assert(e[0] == n[0]);
    assert(e.last() == v.last());
    assert(clean_piece(e));
    lemma_cookie_pieces_clean(cookies);
    lemma_without_prefix_props(cookie_pieces(cookies), n + seq!['=']);
    let kept = kept_cookies(cookies, n);
    if join(kept, "; "@).len() == 0 {
        lemma_split_plain(e, ';');
        lemma_trim_of_trimmed(e);
        lemma_trim_all_single(e);
        assert(Seq::<Seq<char>>::empty().push(e) =~= seq![e]);
    } else {
        assert(kept.len() >= 1);
        let all = kept.push(e);
        assert(all.drop_last() =~= kept);
        assert forall|k: int| 0 <= k < all.len() implies clean_piece(#[trigger] all[k]) by {
            if k < kept.len() {
                assert(all[k] == kept[k]);
            }
        }
        assert(join(all, "; "@) =~= join(kept, "; "@) + "; "@ + e);
        lemma_split_join(all);
    }
}

proof fn lemma_find_char_facts(s: Seq<char>, c: char, i: int)
    requires
        find_char_from(s, c, i) is Some,
        0 <= i,
    ensures
        i <= find_char_from(s, c, i)->0 < s.len(),
        s[find_char_from(s, c, i)->0] == c,
        forall|k: int| i <= k < find_char_from(s, c, i)->0 ==> #[trigger] s[k] != c,
    decreases s.len() - i,
{
    if s[i] != c {
        lemma_find_char_facts(s, c, i + 1);
    }
}

proof fn lemma_trim_all_index(ps: Seq<Seq<char>>)
    ensures
        trim_all(ps).len() == ps.len(),
        forall|k: int| 0 <= k < ps.len() ==> #[trigger] trim_all(ps)[k] == trim(ps[k]),
    decreases ps.len(),
{
    if ps.len() > 0 {
        lemma_trim_all_index(ps.drop_last());
        assert forall|k: int| 0 <= k < ps.len() implies #[trigger] trim_all(ps)[k] == trim(
            ps[k],
        ) by {
            if k < ps.len() - 1 {
                assert(ps.drop_last()[k] == ps[k]);
            }
        }
    }
}

/// A cookie that survives being stored and read back: a non-empty name
/// without `=`, a name and value without `;`, neither with surrounding
/// white space.
pub open spec fn storable_entry(e: (Seq<char>, Seq<char>)) -> bool {
    &&& e.0.len() > 0
    &&& forall|k: int| 0 <= k < e.0.len() ==> #[trigger] e.0[k] != ';' && e.0[k] != '='
    &&& forall|k: int| 0 <= k < e.1.len() ==> #[trigger] e.1[k] != ';'
    &&& !is_white_space(e.0[0]) && !is_white_space(e.0.last())
    &&& (e.1.len() == 0 || (!is_white_space(e.1[0]) && !is_white_space(e.1.last())))
}

proof fn lemma_find_char_at(s: Seq<char>, c: char, i: int, j: int)
    requires
        0 <= i <= j < s.len(),
        s[j] == c,
        forall|k: int| i <= k < j ==> #[trigger] s[k] != c,
    ensures
        find_char_from(s, c, i) == Some(j),
    decreases j - i,
{
    if i < j {
        lemma_find_char_at(s, c, i + 1, j);
    }
}

proof fn lemma_entry_piece(e: (Seq<char>, Seq<char>))
    requires
        storable_entry(e),
    ensures
        clean_piece(cookie_entry(e.0, e.1)),
        piece_pair(cookie_entry(e.0, e.1)) == Some(e),
{
    let (n, v) = e;
    let p = cookie_entry(n, v);
    assert forall|k: int| 0 <= k < p.len() implies #[trigger] p[k] != ';' by {
        if k < n.len() {
            assert(p[k] == n[k]);
        } else if k > n.len() {
            assert(p[k] == v[k - n.len() - 1]);
        }
    }
    assert(p[0] == n[0]);
    if v.len() > 0 {
        assert(p.last() == v.last());
    } else {
        assert(p.last() == '=');
    }
    assert forall|k: int| 0 <= k < n.len() implies #[trigger] p[k] != '=' by {
        assert(p[k] == n[k]);
    }
    lemma_find_char_at(p, '=', 0, n.len() as int);
    assert(p.subrange(0, n.len() as int) =~= n);
    assert(p.subrange(n.len() as int + 1, p.len() as int) =~= v);
    lemma_trim_of_trimmed(n);
    lemma_trim_of_trimmed(v);
}

proof fn lemma_entry_pairs(es: Seq<(Seq<char>, Seq<char>)>)
    requires
        forall|k: int| 0 <= k < es.len() ==> storable_entry(#[trigger] es[k]),
    ensures
        piece_pairs(es.map_values(|e: (Seq<char>, Seq<char>)| cookie_entry(e.0, e.1))) == es,
    decreases es.len(),
{
    let ps = es.map_values(|e: (Seq<char>, Seq<char>)| cookie_entry(e.0, e.1));
    if es.len() > 0 {
        let t = es.drop_last();
        assert forall|k: int| 0 <= k < t.len() implies storable_entry(#[trigger] t[k]) by {
            assert(t[k] == es[k]);
        }
        lemma_entry_pairs(t);
        assert(ps.drop_last() =~= t.map_values(|e: (Seq<char>, Seq<char>)| cookie_entry(e.0, e.1)));
        assert(storable_entry(es[es.len() - 1]));
        lemma_entry_piece(es.last());
        assert(ps.last() == cookie_entry(es.last().0, es.last().1));
        assert(t.push(es.last()) =~= es);
    } else {
        assert(ps.len() == 0);
    }
}

/// Storing cookies and reading them back gives the same cookies, in the
/// same order: `restore_entries` followed by `entries` is the identity on
/// storable cookies.
pub proof fn lemma_entries_round_trip(es: Seq<(Seq<char>, Seq<char>)>)
    requires
        forall|k: int| 0 <= k < es.len() ==> storable_entry(#[trigger] es[k]),
    ensures
        piece_pairs(split_char(entries_header(es), ';').map_values(|p: Seq<char>| trim(p))) == es,
{
    reveal_strlit("; ");
    let ps = es.map_values(|e: (Seq<char>, Seq<char>)| cookie_entry(e.0, e.1));
    let sp = split_char(entries_header(es), ';');
    if es.len() == 0 {
        assert(entries_header(es) == Seq::<char>::empty());
        assert(sp == seq![Seq::<char>::empty()]);
        lemma_trim_of_trimmed(Seq::<char>::empty());
        let m = sp.map_values(|p: Seq<char>| trim(p));
        assert(m =~= seq![Seq::<char>::empty()]);
        assert(m.drop_last() =~= Seq::<Seq<char>>::empty());
        assert(piece_pair(Seq::<char>::empty()) is None);
        assert(piece_pairs(m) == piece_pairs(m.drop_last()));
    } else {
        assert forall|k: int| 0 <= k < ps.len() implies clean_piece(#[trigger] ps[k]) by {
            assert(storable_entry(es[k]));
            lemma_entry_piece(es[k]);
        }
        lemma_split_join(ps);
        assert(entries_header(es) == join(ps, "; "@));
        lemma_trim_all_index(sp);
        assert(sp.map_values(|p: Seq<char>| trim(p)) =~= trim_all(sp));
        assert(trim_all(sp) == ps);
        lemma_entry_pairs(es);
        assert(piece_pairs(ps) == es);
    }
}


/// The stored pieces of `(name, value)` pairs: `name=value` each.
pub open spec fn entry_pieces(es: Seq<(Seq<char>, Seq<char>)>) -> Seq<Seq<char>> {
    es.map_values(|e: (Seq<char>, Seq<char>)| cookie_entry(e.0, e.1))
}

/// The pairs whose name is not `n`, in order.
pub open spec fn without_name(es: Seq<(Seq<char>, Seq<char>)>, n: Seq<char>) -> Seq<
    (Seq<char>, Seq<char>),
>
    decreases es.len(),
{
    if es.len() == 0 {
        es
    } else if es.last().0 == n {
        without_name(es.drop_last(), n)
    } else {
        without_name(es.drop_last(), n).push(es.last())
    }
}

pub open spec fn lacks_char(s: Seq<char>, c: char) -> bool {
    forall|k: int| 0 <= k < s.len() ==> #[trigger] s[k] != c
}

/// Storable pairs, no name twice.
pub open spec fn jar_entries_wf(es: Seq<(Seq<char>, Seq<char>)>) -> bool {
    &&& forall|k: int| 0 <= k < es.len() ==> storable_entry(#[trigger] es[k])
    &&& forall|i: int, j: int|
        0 <= i < j < es.len() ==> #[trigger] es[i].0 != #[trigger] es[j].0
}

/// A header that a jar built by `new` and `add_from_set_cookie` can hold:
/// storable cookies with distinct names, joined with `; `.
pub open spec fn holds_storable(s: Seq<char>) -> bool {
    exists|es: Seq<(Seq<char>, Seq<char>)>| jar_entries_wf(es) && #[trigger] entries_header(es) == s
}

proof fn lemma_join_last_len(ps: Seq<Seq<char>>, sep: Seq<char>)
    requires
        ps.len() >= 1,
    ensures
        join(ps, sep).len() >= ps.last().len(),
{
}

proof fn lemma_without_prefix_nonempty(ps: Seq<Seq<char>>, pre: Seq<char>)
    requires
        forall|k: int| 0 <= k < ps.len() ==> (#[trigger] ps[k]).len() > 0,
    ensures
        forall|k: int| 0 <= k < without_prefix(ps, pre).len() ==> (#[trigger] without_prefix(ps, pre)[k]).len() > 0,
    decreases ps.len(),
{
    if ps.len() > 0 {
        let t = ps.drop_last();
        assert forall|k: int| 0 <= k < t.len() implies (#[trigger] t[k]).len() > 0 by {
            assert(t[k] == ps[k]);
        }
        lemma_without_prefix_nonempty(t, pre);
        assert(ps[ps.len() - 1].len() > 0);
        let r = without_prefix(t, pre);
        assert forall|k: int| 0 <= k < r.push(ps.last()).len() implies (#[trigger] r.push(ps.last())[k]).len() > 0 by {
            if k < r.len() {
                assert(r.push(ps.last())[k] == r[k]);
            }
        }
    }
}

/// A `Set-Cookie` on a jar of well-formed cookies keeps the other cookies in
/// their order and puts `name=value` last, in place of any cookie of that
/// name; the header is those cookies joined with `; `.
pub proof fn lemma_set_cookie_on_jar(ps: Seq<Seq<char>>, h: Seq<char>)
    requires
        forall|k: int| 0 <= k < ps.len() ==> clean_piece(#[trigger] ps[k]) && ps[k].len() > 0,
        set_cookie_pair(h) matches Some((n, v)) && n.len() > 0 && v.len() > 0,
    ensures
        ({
            let (n, v) = set_cookie_pair(h)->0;
            let after = without_prefix(ps, n + seq!['=']).push(cookie_entry(n, v));
            &&& cookie_pieces(add_set_cookie(join(ps, "; "@), h)) == after
            &&& add_set_cookie(join(ps, "; "@), h) == join(after, "; "@)
            &&& forall|k: int|
                0 <= k < after.len() - 1 ==> !starts_with(#[trigger] after[k], n + seq!['='])
        }),
{
    reveal_strlit("; ");
    let (n, v) = set_cookie_pair(h)->0;
    let pre = n + seq!['='];
    let e = cookie_entry(n, v);
    let cookies = join(ps, "; "@);
    lemma_set_cookie_replaces(cookies, h);
    let kw = without_prefix(ps, pre);
    assert forall|k: int| 0 <= k < ps.len() implies clean_piece(#[trigger] ps[k]) by {}
    lemma_without_prefix_props(ps, pre);
    if ps.len() == 0 {
        let z = Seq::<char>::empty();
        assert(cookies == z);
        lemma_split_plain(z, ';');
        lemma_trim_of_trimmed(z);
        lemma_trim_all_single(z);
        assert(cookie_pieces(cookies) == seq![z]);
        assert(!starts_with(z, pre));
        let sz = seq![z];
        assert(sz.drop_last() =~= Seq::<Seq<char>>::empty());
        assert(sz.last() == z);
        assert(without_prefix(sz, pre) == without_prefix(Seq::<Seq<char>>::empty(), pre).push(z));
        assert(without_prefix(sz, pre) =~= sz);
        assert(kept_cookies(cookies, n) == sz);
        assert(join(sz, "; "@) == z);
        assert(kw.push(e) =~= seq![e]);
    } else {
        lemma_split_join(ps);
        assert(kept_cookies(cookies, n) == kw);
        assert forall|k: int| 0 <= k < ps.len() implies (#[trigger] ps[k]).len() > 0 by {}
        lemma_without_prefix_nonempty(ps, pre);
        if kw.len() == 0 {
            assert(kw.push(e) =~= seq![e]);
        } else {
            assert(kw[kw.len() - 1].len() > 0);
            lemma_join_last_len(kw, "; "@);
            assert(kw.push(e).drop_last() =~= kw);
        }
    }
    let after = kw.push(e);
    assert forall|k: int| 0 <= k < after.len() - 1 implies !starts_with(#[trigger] after[k], pre) by {
        assert(after[k] == kw[k]);
    }
}

/// `name=value` starts with `other=` exactly when the names agree, for names
/// without `=`.
proof fn lemma_entry_starts_with(a: Seq<char>, x: Seq<char>, b: Seq<char>)
    requires
        lacks_char(a, '='),
        lacks_char(b, '='),
    ensures
        starts_with(cookie_entry(a, x), b + seq!['=']) <==> a == b,
{
    let s = cookie_entry(a, x);
    let p = b + seq!['='];
    if a == b {
        assert(s.subrange(0, p.len() as int) =~= p);
    } else if occurs_at(s, p, 0) {
        let sub = s.subrange(0, p.len() as int);
        assert(sub == p);
        if a.len() == b.len() {
            assert forall|k: int| 0 <= k < a.len() implies a[k] == b[k] by {
                assert(sub[k] == s[k]);
                assert(p[k] == b[k]);
            }
            assert(a =~= b);
        } else if a.len() < b.len() {
            let k = a.len() as int;
            assert(sub[k] == s[k]);
            assert(s[k] == '=');
            assert(p[k] == b[k]);
        } else {
            let k = b.len() as int;
            assert(sub[k] == s[k]);
            assert(s[k] == a[k]);
            assert(p[k] == '=');
        }
    }
}

proof fn lemma_without_name_pieces(es: Seq<(Seq<char>, Seq<char>)>, n: Seq<char>)
    requires
        lacks_char(n, '='),
        forall|k: int| 0 <= k < es.len() ==> lacks_char(#[trigger] es[k].0, '='),
    ensures
        entry_pieces(without_name(es, n)) == without_prefix(entry_pieces(es), n + seq!['=']),
    decreases es.len(),
{
    let pre = n + seq!['='];
    if es.len() == 0 {
        assert(entry_pieces(es) =~= Seq::<Seq<char>>::empty());
        assert(entry_pieces(without_name(es, n)) =~= Seq::<Seq<char>>::empty());
    } else {
        let t = es.drop_last();
        assert forall|k: int| 0 <= k < t.len() implies lacks_char(#[trigger] t[k].0, '=') by {
            assert(t[k] == es[k]);
        }
        lemma_without_name_pieces(t, n);
        let last = es.last();
        assert(lacks_char(es[es.len() - 1].0, '='));
        lemma_entry_starts_with(last.0, last.1, n);
        assert(entry_pieces(es).drop_last() =~= entry_pieces(t));
        assert(entry_pieces(es).last() == cookie_entry(last.0, last.1));
        if last.0 != n {
            assert(entry_pieces(without_name(t, n).push(last)) =~= entry_pieces(without_name(t, n)).push(
                cookie_entry(last.0, last.1),
            ));
        }
    }
}

proof fn lemma_without_name_props(es: Seq<(Seq<char>, Seq<char>)>, n: Seq<char>)
    requires
        jar_entries_wf(es),
    ensures
        jar_entries_wf(without_name(es, n)),
        forall|k: int| 0 <= k < without_name(es, n).len() ==> (#[trigger] without_name(es, n)[k]).0 != n,
        forall|k: int|
            0 <= k < without_name(es, n).len() ==> exists|j: int|
                0 <= j < es.len() && #[trigger] without_name(es, n)[k] == es[j],
    decreases es.len(),
{
    if es.len() > 0 {
        let t = es.drop_last();
        assert forall|k: int| 0 <= k < t.len() implies storable_entry(#[trigger] t[k]) by {
            assert(t[k] == es[k]);
        }
        assert forall|i: int, j: int| 0 <= i < j < t.len() implies #[trigger] t[i].0 != #[trigger] t[j].0 by {
            assert(t[i] == es[i] && t[j] == es[j]);
        }
        lemma_without_name_props(t, n);
        let w = without_name(t, n);
        assert forall|k: int| 0 <= k < w.len() implies exists|j: int|
            0 <= j < es.len() && #[trigger] w[k] == es[j] by {
            let j = choose|j: int| 0 <= j < t.len() && w[k] == t[j];
            assert(es[j] == t[j]);
        }
        let last = es.last();
        if last.0 != n {
            let r = w.push(last);
            assert(storable_entry(es[es.len() - 1]));
            assert forall|k: int| 0 <= k < r.len() implies storable_entry(#[trigger] r[k]) by {
                if k < w.len() {
                    assert(r[k] == w[k]);
                }
            }
            assert forall|i: int, j: int| 0 <= i < j < r.len() implies #[trigger] r[i].0 != #[trigger] r[j].0 by {
                if j < w.len() {
                    assert(r[i] == w[i] && r[j] == w[j]);
                } else {
                    assert(r[i] == w[i]);
                    let m = choose|m: int| 0 <= m < t.len() && w[i] == t[m];
                    assert(es[m].0 != es[es.len() - 1].0);
                }
            }
            assert forall|k: int| 0 <= k < r.len() implies (#[trigger] r[k]).0 != n by {
                if k < w.len() {
                    assert(r[k] == w[k]);
                }
            }
            assert forall|k: int| 0 <= k < r.len() implies exists|j: int|
                0 <= j < es.len() && #[trigger] r[k] == es[j] by {
                if k < w.len() {
                    assert(r[k] == w[k]);
                    let j = choose|j: int| 0 <= j < es.len() && w[k] == es[j];
                    assert(r[k] == es[j]);
                } else {
                    assert(r[k] == es[es.len() - 1]);
                }
            }
        }
    }
}

proof fn lemma_set_cookie_pair_storable(h: Seq<char>)
    requires
        set_cookie_pair(h) matches Some((n, v)) && n.len() > 0 && v.len() > 0,
    ensures
        storable_entry(set_cookie_pair(h)->0),
{
    let (n, v) = set_cookie_pair(h)->0;
    let i = find_char_from(h, ';', 0)->0;
    lemma_find_char_facts(h, ';', 0);
    let kv = h.subrange(0, i);
    let j = find_char_from(kv, '=', 0)->0;
    lemma_find_char_facts(kv, '=', 0);
    let nk = kv.subrange(0, j);
    let vk = kv.subrange(j + 1, kv.len() as int);
    assert forall|m: int| 0 <= m < nk.len() implies #[trigger] nk[m] != ';' by {
        assert(nk[m] == h[m]);
    }
    assert forall|m: int| 0 <= m < nk.len() implies #[trigger] nk[m] != '=' by {
        assert(nk[m] == kv[m]);
    }
    assert forall|m: int| 0 <= m < vk.len() implies #[trigger] vk[m] != ';' by {
        assert(vk[m] == h[j + 1 + m]);
    }
    lemma_trim_keeps_absent(nk, ';');
    lemma_trim_keeps_absent(nk, '=');
    lemma_trim_keeps_absent(vk, ';');
    lemma_trim_idempotent(nk);
    lemma_trim_idempotent(vk);
}

/// Every header a jar holds from `new` and `add_from_set_cookie` on is
/// made of storable cookies with distinct names: a `Set-Cookie` keeps that so.
pub proof fn lemma_set_cookie_keeps_storable(s: Seq<char>, h: Seq<char>)
    requires
        holds_storable(s),
    ensures
        holds_storable(add_set_cookie(s, h)),
{
    let es = choose|es: Seq<(Seq<char>, Seq<char>)>| jar_entries_wf(es) && #[trigger] entries_header(es) == s;
    if set_cookie_pair(h) matches Some((n, v)) && n.len() > 0 && v.len() > 0 {
        let (n, v) = set_cookie_pair(h)->0;
        lemma_set_cookie_pair_storable(h);
        let ps = entry_pieces(es);
        assert forall|k: int| 0 <= k < ps.len() implies clean_piece(#[trigger] ps[k]) && ps[k].len() > 0 by {
            assert(storable_entry(es[k]));
            lemma_entry_piece(es[k]);
            assert(ps[k] == cookie_entry(es[k].0, es[k].1));
        }
        assert(entries_header(es) == join(ps, "; "@));
        lemma_set_cookie_on_jar(ps, h);
        assert forall|k: int| 0 <= k < es.len() implies lacks_char(#[trigger] es[k].0, '=') by {
            assert(storable_entry(es[k]));
        }
        lemma_without_name_pieces(es, n);
        lemma_without_name_props(es, n);
        let w = without_name(es, n);
        let es2 = w.push((n, v));
        assert(entry_pieces(es2) =~= entry_pieces(w).push(cookie_entry(n, v)));
        assert forall|k: int| 0 <= k < es2.len() implies storable_entry(#[trigger] es2[k]) by {
            if k < w.len() {
                assert(es2[k] == w[k]);
            }
        }
        assert forall|i: int, j: int| 0 <= i < j < es2.len() implies #[trigger] es2[i].0 != #[trigger] es2[j].0 by {
            assert(es2[i] == w[i]);
            if j < w.len() {
                assert(es2[j] == w[j]);
            }
        }
        assert(jar_entries_wf(es2));
        assert(entries_header(es2) == add_set_cookie(s, h));
    }
}

/// A jar of storable cookies, read out and stored again, holds the same
/// header: `entries` followed by `restore_entries` changes nothing, and
/// what `entries` reads are the stored cookies, each name once.
pub proof fn lemma_jar_export_restore(s: Seq<char>)
    requires
        holds_storable(s),
    ensures
        entries_header(piece_pairs(split_char(s, ';').map_values(|p: Seq<char>| trim(p)))) == s,
        jar_entries_wf(piece_pairs(split_char(s, ';').map_values(|p: Seq<char>| trim(p)))),
{
    let es = choose|es: Seq<(Seq<char>, Seq<char>)>| jar_entries_wf(es) && #[trigger] entries_header(es) == s;
    lemma_entries_round_trip(es);
}

} // verus!
