//! Text helpers for the SQL store: splitting a schema script into
//! statements, quoting identifiers, checking database names.
use vstd::prelude::*;
use vstd::string::*;

verus! {

/// Unicode `White_Space`, the characters `char::is_whitespace` accepts.
pub open spec fn is_space(c: char) -> bool {
    let u = c as u32;
    ||| 9 <= u <= 13
    ||| u == 32
    ||| u == 0x85
    ||| u == 0xA0
    ||| u == 0x1680
    ||| 0x2000 <= u <= 0x200A
    ||| u == 0x2028
    ||| u == 0x2029
    ||| u == 0x202F
    ||| u == 0x205F
    ||| u == 0x3000
}

pub open spec fn trim_start(t: Seq<char>) -> Seq<char>
    decreases t.len(),
{
    if t.len() > 0 && is_space(t[0]) {
        trim_start(t.drop_first())
    } else {
        t
    }
}

pub open spec fn trim_end(t: Seq<char>) -> Seq<char>
    decreases t.len(),
{
    if t.len() > 0 && is_space(t.last()) {
        trim_end(t.drop_last())
    } else {
        t
    }
}

/// The text without leading and trailing white space.
pub open spec fn trim(t: Seq<char>) -> Seq<char> {
    trim_end(trim_start(t))
}

/// `t` as a one-element sequence, or nothing when `t` is empty.
pub open spec fn keep_nonempty(t: Seq<char>) -> Seq<Seq<char>> {
    if t.len() > 0 {
        seq![t]
    } else {
        Seq::empty()
    }
}

/// Statements of `rest`, where `cur` is the unfinished statement before it.
pub open spec fn statements_after(cur: Seq<char>, rest: Seq<char>) -> Seq<Seq<char>>
    decreases rest.len(),
{
    if rest.len() == 0 {
        keep_nonempty(trim(cur))
    } else if rest[0] == ';' {
        keep_nonempty(trim(cur)) + statements_after(Seq::empty(), rest.drop_first())
    } else {
        statements_after(cur.push(rest[0]), rest.drop_first())
    }
}

/// The pieces of a script between semicolons, trimmed, empty ones dropped.
pub open spec fn statements(script: Seq<char>) -> Seq<Seq<char>> {
    statements_after(Seq::empty(), script)
}

/// `"` doubled.
pub open spec fn escape_quotes(t: Seq<char>) -> Seq<char>
    decreases t.len(),
{
    if t.len() == 0 {
        t
    } else if t.last() == '"' {
        escape_quotes(t.drop_last()) + seq!['"', '"']
    } else {
        escape_quotes(t.drop_last()).push(t.last())
    }
}

/// A SQL identifier in double quotes, inner quotes doubled.
pub open spec fn quoted_ident(name: Seq<char>) -> Seq<char> {
    seq!['"'] + escape_quotes(name) + seq!['"']
}

/// Characters a database name may hold.
pub open spec fn db_name_char(c: char) -> bool {
    let u = c as u32;
    ||| 48 <= u <= 57
    ||| 65 <= u <= 90
    ||| 97 <= u <= 122
    ||| c == '_'
    ||| c == '-'
}

pub open spec fn db_name_message(name: Seq<char>) -> Seq<char> {
    "invalid postgres database name '"@ + name + "': only alphanumeric, '_' and '-' allowed"@
}

fn space_char(c: char) -> (r: bool)
    ensures
        r == is_space(c),
{
    let u = c as u32;
    (9 <= u && u <= 13) || u == 32 || u == 0x85 || u == 0xA0 || u == 0x1680 || (0x2000 <= u && u
        <= 0x200A) || u == 0x2028 || u == 0x2029 || u == 0x202F || u == 0x205F || u == 0x3000
}

proof fn lemma_trim_start_skip(t: Seq<char>, k: int)
    requires
        0 <= k <= t.len(),
        forall|i: int| 0 <= i < k ==> is_space(#[trigger] t[i]),
    ensures
        trim_start(t) == trim_start(t.subrange(k, t.len() as int)),
    decreases k,
{
    if k > 0 {
        assert(t.drop_first() =~= t.subrange(1, t.len() as int));
        let u = t.drop_first();
        assert forall|i: int| 0 <= i < k - 1 implies is_space(#[trigger] u[i]) by {
            assert(u[i] == t[i + 1]);
        }
        lemma_trim_start_skip(u, k - 1);
        assert(u.subrange(k - 1, u.len() as int) =~= t.subrange(k, t.len() as int));
    } else {
        assert(t.subrange(0, t.len() as int) =~= t);
    }
}

proof fn lemma_trim_end_skip(t: Seq<char>, k: int)
    requires
        0 <= k <= t.len(),
        forall|i: int| k <= i < t.len() ==> is_space(#[trigger] t[i]),
    ensures
        trim_end(t) == trim_end(t.subrange(0, k)),
    decreases t.len() - k,
{
    if k < t.len() {
        let u = t.drop_last();
        assert forall|i: int| k <= i < u.len() implies is_space(#[trigger] u[i]) by {
            assert(u[i] == t[i]);
        }
        lemma_trim_end_skip(u, k);
        assert(u.subrange(0, k) =~= t.subrange(0, k));
    } else {
        assert(t.subrange(0, k) =~= t);
    }
}

/// Bounds of the trimmed part of `s[a..b]`.
fn trim_bounds(s: &str, a: usize, b: usize) -> (r: (usize, usize))
    requires
        a <= b <= s@.len(),
    ensures
        a <= r.0 <= r.1 <= b,
        s@.subrange(r.0 as int, r.1 as int) == trim(s@.subrange(a as int, b as int)),
{
    let ghost t = s@.subrange(a as int, b as int);
    let mut lo = a;
    while lo < b && space_char(s.get_char(lo))
        invariant
            a <= lo <= b <= s@.len(),
            t == s@.subrange(a as int, b as int),
            forall|i: int| a <= i < lo ==> is_space(#[trigger] s@[i]),
        decreases b - lo,
    {
        lo = lo + 1;
    }
    proof {
        assert forall|i: int| 0 <= i < lo - a implies is_space(#[trigger] t[i]) by {
            assert(t[i] == s@[a + i]);
        }
        lemma_trim_start_skip(t, lo - a);
        assert(t.subrange(lo - a, t.len() as int) =~= s@.subrange(lo as int, b as int));
        let u = s@.subrange(lo as int, b as int);
        if lo < b {
            assert(u[0] == s@[lo as int]);
        }
        assert(trim_start(t) == u);
    }
    let mut hi = b;
    while hi > lo && space_char(s.get_char(hi - 1))
        invariant
            a <= lo <= hi <= b <= s@.len(),
            forall|i: int| hi <= i < b ==> is_space(#[trigger] s@[i]),
        decreases hi - lo,
    {
        hi = hi - 1;
    }
    proof {
        let u = s@.subrange(lo as int, b as int);
        assert forall|i: int| hi - lo <= i < u.len() implies is_space(#[trigger] u[i]) by {
            assert(u[i] == s@[lo + i]);
        }
        lemma_trim_end_skip(u, hi - lo);
        assert(u.subrange(0, hi - lo) =~= s@.subrange(lo as int, hi as int));
        let v = s@.subrange(lo as int, hi as int);
        if hi > lo {
            assert(v.last() == s@[hi - 1]);
        }
        assert(trim_end(v) == v);
    }
    (lo, hi)
}

/// The statements of a schema script: the pieces between semicolons,
/// trimmed, without the empty ones.
pub fn chunk_statements(schema: &str) -> (r: Vec<String>)
    ensures
        r@.map_values(|x: String| x@) == statements(schema@),
{
    let n = schema.unicode_len();
    let mut out: Vec<String> = Vec::new();
    let mut start: usize = 0;
    let mut i: usize = 0;
    proof {
        assert(schema@.subrange(0, 0) =~= Seq::<char>::empty());
        assert(schema@.subrange(0, n as int) =~= schema@);
        assert(out@.map_values(|x: String| x@) + statements(schema@) =~= statements(schema@));
    }
    while i < n
        invariant
            n == schema@.len(),
            start <= i <= n,
            out@.map_values(|x: String| x@) + statements_after(
                schema@.subrange(start as int, i as int),
                schema@.subrange(i as int, n as int),
            ) == statements(schema@),
        decreases n - i,
    {
        let c = schema.get_char(i);
        let ghost cur = schema@.subrange(start as int, i as int);
        let ghost rest = schema@.subrange(i as int, n as int);
        proof {
            assert(rest[0] == c);
            assert(rest.drop_first() =~= schema@.subrange(i + 1, n as int));
        }
        if c == ';' {
            let (lo, hi) = trim_bounds(schema, start, i);
            if lo < hi {
                let piece = String::from_str(schema.substring_char(lo, hi));
                proof {
                    assert((out@.push(piece)).map_values(|x: String| x@) =~= out@.map_values(
                        |x: String| x@,
                    ) + keep_nonempty(trim(cur)));
                }
                out.push(piece);
            } else {
                proof {
                    assert(keep_nonempty(trim(cur)) =~= Seq::<Seq<char>>::empty());
                    assert(out@.map_values(|x: String| x@) + keep_nonempty(trim(cur))
                        =~= out@.map_values(|x: String| x@));
                }
            }
            proof {
                assert(schema@.subrange(i + 1, i + 1) =~= Seq::<char>::empty());
                let o = out@.map_values(|x: String| x@);
                assert(o + statements_after(
                    Seq::empty(),
                    schema@.subrange(i + 1, n as int),
                ) == statements(schema@)) by {
                    let o0 = o.subrange(0, o.len() as int);
                    assert(o0 =~= o);
                }
            }
            start = i + 1;
        } else {
            proof {
                assert(cur.push(c) =~= schema@.subrange(start as int, i + 1));
            }
        }
        i = i + 1;
    }
    let (lo, hi) = trim_bounds(schema, start, n);
    let ghost cur = schema@.subrange(start as int, n as int);
    proof {
        assert(schema@.subrange(n as int, n as int) =~= Seq::<char>::empty());
    }
    if lo < hi {
        let piece = String::from_str(schema.substring_char(lo, hi));
        proof {
            assert((out@.push(piece)).map_values(|x: String| x@) =~= out@.map_values(
                |x: String| x@,
            ) + keep_nonempty(trim(cur)));
        }
        out.push(piece);
    } else {
        proof {
            assert(out@.map_values(|x: String| x@) + keep_nonempty(trim(cur)) =~= out@.map_values(
                |x: String| x@,
            ));
        }
    }
    out
}

/// A SQL identifier in double quotes, with each inner quote doubled.
pub fn quote_ident(name: &str) -> (r: String)
    ensures
        r@ == quoted_ident(name@),
{
    let n = name.unicode_len();
    let mut out = String::from_str("\"");
    proof {
        reveal_strlit("\"");
        assert(name@.subrange(0, 0) =~= Seq::<char>::empty());
    }
    let mut i: usize = 0;
    while i < n
        invariant
            n == name@.len(),
            i <= n,
            out@ == seq!['"'] + escape_quotes(name@.subrange(0, i as int)),
        decreases n - i,
    {
        let c = name.get_char(i);
        proof {
            assert(name@.subrange(0, i + 1).drop_last() =~= name@.subrange(0, i as int));
            assert(name@.subrange(0, i + 1).last() == c);
        }
        if c == '"' {
            out.append("\"\"");
            proof {
                reveal_strlit("\"\"");
                assert(out@ =~= seq!['"'] + escape_quotes(name@.subrange(0, i + 1)));
            }
        } else {
            out.append(name.substring_char(i, i + 1));
            proof {
                assert(name@.subrange(i as int, i + 1) =~= seq![c]);
                assert(out@ =~= seq!['"'] + escape_quotes(name@.subrange(0, i + 1)));
            }
        }
        i = i + 1;
    }
    out.append("\"");
    proof {
        reveal_strlit("\"");
        assert(name@.subrange(0, n as int) =~= name@);
        assert(out@ =~= quoted_ident(name@));
    }
    out
}

/// Accepts a database name made of ASCII letters, digits, `_` and `-` only.
pub fn validate_db_name(name: &str) -> (r: Result<(), String>)
    ensures
        r is Ok <==> forall|i: int| 0 <= i < name@.len() ==> db_name_char(#[trigger] name@[i]),
        r matches Err(m) ==> m@ == db_name_message(name@),
{
    let n = name.unicode_len();
    let mut i: usize = 0;
    while i < n
        invariant
            n == name@.len(),
            i <= n,
            forall|k: int| 0 <= k < i ==> db_name_char(#[trigger] name@[k]),
        decreases n - i,
    {
        let c = name.get_char(i);
        let u = c as u32;
        let ok = (48 <= u && u <= 57) || (65 <= u && u <= 90) || (97 <= u && u <= 122) || c == '_'
            || c == '-';
        if !ok {
            let mut msg = String::from_str("invalid postgres database name '");
            msg.append(name);
            msg.append("': only alphanumeric, '_' and '-' allowed");
            return Err(msg);
        }
        i = i + 1;
    }
    Ok(())
}

/// Index of the first `://` at or after `i`, or -1.
pub open spec fn scheme_sep_from(s: Seq<char>, i: int) -> int
    decreases s.len() - i,
{
    if i < 0 || i + 3 > s.len() {
        -1
    } else if s[i] == ':' && s[i + 1] == '/' && s[i + 2] == '/' {
        i
    } else {
        scheme_sep_from(s, i + 1)
    }
}

/// Index of the first `/`, `?` or `#` at or after `i`, or the length.
pub open spec fn authority_end_from(s: Seq<char>, i: int) -> int
    decreases s.len() - i,
{
    if i < 0 || i >= s.len() {
        s.len() as int
    } else if s[i] == '/' || s[i] == '?' || s[i] == '#' {
        i
    } else {
        authority_end_from(s, i + 1)
    }
}

/// One past the last `@` in `[lo, hi)`, or `lo`.
pub open spec fn after_userinfo(s: Seq<char>, lo: int, hi: int) -> int
    decreases hi - lo,
{
    if hi <= lo {
        lo
    } else if s[hi - 1] == '@' {
        hi
    } else {
        after_userinfo(s, lo, hi - 1)
    }
}

/// Index of the first `:` in `[i, hi)`, or `hi`.
pub open spec fn port_sep_from(s: Seq<char>, i: int, hi: int) -> int
    decreases hi - i,
{
    if i >= hi {
        hi
    } else if s[i] == ':' {
        i
    } else {
        port_sep_from(s, i + 1, hi)
    }
}

/// The host of a URL: after the scheme's `://` (if any), before the first
/// `/`, `?` or `#`, without user information and port.
pub open spec fn url_host(u: Seq<char>) -> Seq<char> {
    let sep = scheme_sep_from(u, 0);
    let a = if sep < 0 { 0 } else { sep + 3 };
    let e = authority_end_from(u, a);
    let h = after_userinfo(u, a, e);
    u.subrange(h, port_sep_from(u, h, e))
}

proof fn lemma_authority_end_bounds(s: Seq<char>, i: int)
    requires
        0 <= i <= s.len(),
    ensures
        i <= authority_end_from(s, i) <= s.len(),
    decreases s.len() - i,
{
    if i < s.len() && !(s[i] == '/' || s[i] == '?' || s[i] == '#') {
        lemma_authority_end_bounds(s, i + 1);
    }
}

proof fn lemma_after_userinfo_bounds(s: Seq<char>, lo: int, hi: int)
    requires
        lo <= hi,
    ensures
        lo <= after_userinfo(s, lo, hi) <= hi,
    decreases hi - lo,
{
    if hi > lo && s[hi - 1] != '@' {
        lemma_after_userinfo_bounds(s, lo, hi - 1);
    }
}

proof fn lemma_port_sep_bounds(s: Seq<char>, i: int, hi: int)
    requires
        i <= hi,
    ensures
        i <= port_sep_from(s, i, hi) <= hi,
    decreases hi - i,
{
    if i < hi && s[i] != ':' {
        lemma_port_sep_bounds(s, i + 1, hi);
    }
}

fn find_scheme_sep(url: &str, n: usize) -> (r: Option<usize>)
    requires
        n == url@.len(),
    ensures
        match r {
            Some(k) => k == scheme_sep_from(url@, 0) && k + 3 <= n,
            None => scheme_sep_from(url@, 0) == -1,
        },
{
    let mut i: usize = 0;
    while i < n && n - i >= 3
        invariant
            n == url@.len(),
            i <= n,
            scheme_sep_from(url@, 0) == scheme_sep_from(url@, i as int),
        decreases n - i,
    {
        if url.get_char(i) == ':' && url.get_char(i + 1) == '/' && url.get_char(i + 2) == '/' {
            return Some(i);
        }
        i = i + 1;
    }
    None
}

fn find_authority_end(url: &str, n: usize, a: usize) -> (r: usize)
    requires
        n == url@.len(),
        a <= n,
    ensures
        r == authority_end_from(url@, a as int),
        a <= r <= n,
{
    proof {
        lemma_authority_end_bounds(url@, a as int);
    }
    let mut e: usize = a;
    while e < n
        invariant
            n == url@.len(),
            a <= e <= n,
            authority_end_from(url@, a as int) == authority_end_from(url@, e as int),
        decreases n - e,
    {
        let c = url.get_char(e);
        if c == '/' || c == '?' || c == '#' {
            return e;
        }
        e = e + 1;
    }
    e
}

fn find_host_start(url: &str, a: usize, e: usize) -> (r: usize)
    requires
        a <= e <= url@.len(),
    ensures
        r == after_userinfo(url@, a as int, e as int),
        a <= r <= e,
{
    proof {
        lemma_after_userinfo_bounds(url@, a as int, e as int);
    }
    let mut h: usize = e;
    while h > a
        invariant
            a <= h <= e <= url@.len(),
            after_userinfo(url@, a as int, e as int) == after_userinfo(url@, a as int, h as int),
        decreases h - a,
    {
        if url.get_char(h - 1) == '@' {
            return h;
        }
        h = h - 1;
    }
    h
}

fn find_port_sep(url: &str, h: usize, e: usize) -> (r: usize)
    requires
        h <= e <= url@.len(),
    ensures
        r == port_sep_from(url@, h as int, e as int),
        h <= r <= e,
{
    proof {
        lemma_port_sep_bounds(url@, h as int, e as int);
    }
    let mut p: usize = h;
    while p < e
        invariant
            h <= p <= e <= url@.len(),
            port_sep_from(url@, h as int, e as int) == port_sep_from(url@, p as int, e as int),
        decreases e - p,
    {
        if url.get_char(p) == ':' {
            return p;
        }
        p = p + 1;
    }
    p
}

/// The host a URL names, the key of its per-origin guard.
pub fn host_of_url(url: &str) -> (r: String)
    ensures
        r@ == url_host(url@),
{
    let n = url.unicode_len();
    let a: usize = match find_scheme_sep(url, n) {
        Some(k) => k + 3,
        None => 0,
    };
    let e = find_authority_end(url, n, a);
    let h = find_host_start(url, a, e);
    let p = find_port_sep(url, h, e);
    String::from_str(url.substring_char(h, p))
}

} // verus!
