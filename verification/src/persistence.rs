//! Settings, saved EQ profiles, the autostart entry and log redaction.
use crate::paths::{join_path, path_join};
use crate::text::{
    chars_of, from_utf8_lossy, is_whitespace, is_ws, push_char, push_str, utf8_lossy,
};
use crate::types::{
    ADVANCED_EQ_FREQUENCIES, AdvancedEqProfile, EqBand, ProtocolError, band_ok, error_message,
    lemma_trim_blank, profile_check,
};
use crate::text::trim_spec;
use vstd::prelude::*;

verus! {

// ------------------------------------------------------------------ redaction

/// `char::is_ascii_hexdigit`.
pub open spec fn is_hex(c: char) -> bool {
    let u = c as u32;
    ||| 0x30 <= u <= 0x39
    ||| 0x41 <= u <= 0x46
    ||| 0x61 <= u <= 0x66
}

/// `char::is_ascii_alphanumeric`.
pub open spec fn is_alnum(c: char) -> bool {
    let u = c as u32;
    ||| 0x30 <= u <= 0x39
    ||| 0x41 <= u <= 0x5a
    ||| 0x61 <= u <= 0x7a
}

/// A character stripped from both ends of a token before it is inspected.
pub open spec fn is_noise(c: char) -> bool {
    !is_hex(c) && c != ':'
}

fn is_hex_exec(c: char) -> (r: bool)
    ensures
        r == is_hex(c),
{
    let u = c as u32;
    (0x30 <= u && u <= 0x39) || (0x41 <= u && u <= 0x46) || (0x61 <= u && u <= 0x66)
}

fn is_alnum_exec(c: char) -> (r: bool)
    ensures
        r == is_alnum(c),
{
    let u = c as u32;
    (0x30 <= u && u <= 0x39) || (0x41 <= u && u <= 0x5a) || (0x61 <= u && u <= 0x7a)
}

fn is_noise_exec(c: char) -> (r: bool)
    ensures
        r == is_noise(c),
{
    !is_hex_exec(c) && c != ':'
}

/// `s` without leading noise.
pub open spec fn strip_lead(s: Seq<char>) -> Seq<char>
    decreases s.len(),
{
    if s.len() > 0 && is_noise(s[0]) {
        strip_lead(s.drop_first())
    } else {
        s
    }
}

/// `s` without trailing noise.
pub open spec fn strip_trail(s: Seq<char>) -> Seq<char>
    decreases s.len(),
{
    if s.len() > 0 && is_noise(s.last()) {
        strip_trail(s.drop_last())
    } else {
        s
    }
}

/// The token with noise trimmed from both ends (`trim_matches`).
pub open spec fn token_core(t: Seq<char>) -> Seq<char> {
    strip_trail(strip_lead(t))
}

/// How many noise characters lead the token.
pub open spec fn lead_len(t: Seq<char>) -> int {
    t.len() - strip_lead(t).len()
}

/// `m` is a Bluetooth address: six hex pairs separated by ':'.
pub open spec fn is_address(m: Seq<char>) -> bool {
    &&& m.len() == 17
    &&& forall|i: int|
        0 <= i < 17 ==> if i % 3 == 2 {
            #[trigger] m[i] == ':'
        } else {
            is_hex(m[i])
        }
}

/// `m` looks like a serial number: fourteen or more ASCII letters and digits.
pub open spec fn is_identifier(m: Seq<char>) -> bool {
    m.len() >= 14 && forall|i: int| 0 <= i < m.len() ==> is_alnum(#[trigger] m[i])
}

pub const ADDRESS_MASK: &'static str = "XX:XX:XX:XX:XX:XX";

pub const IDENTIFIER_MASK: &'static str = "[redacted-identifier]";

/// The token with its core replaced by `mask`; the core occurs in the token
/// exactly once, between the leading and the trailing noise.
pub open spec fn masked(t: Seq<char>, mask: Seq<char>) -> Seq<char> {
    t.take(lead_len(t)) + mask + t.skip(lead_len(t) + token_core(t).len())
}

/// One whitespace-free token after redaction.
pub open spec fn redact_token(t: Seq<char>) -> Seq<char> {
    let m = token_core(t);
    if is_address(m) {
        masked(t, ADDRESS_MASK@)
    } else if is_identifier(m) {
        masked(t, IDENTIFIER_MASK@)
    } else {
        t
    }
}

/// The whitespace-separated tokens of the first `n` characters, and the token
/// still open at position `n`.
pub open spec fn scan_words(s: Seq<char>, n: int) -> (Seq<Seq<char>>, Seq<char>)
    decreases n,
{
    if n <= 0 {
        (Seq::empty(), Seq::empty())
    } else {
        let (w, cur) = scan_words(s, n - 1);
        if is_ws(s[n - 1]) {
            if cur.len() > 0 {
                (w.push(cur), Seq::empty())
            } else {
                (w, cur)
            }
        } else {
            (w, cur.push(s[n - 1]))
        }
    }
}

/// `str::split_whitespace`.
pub open spec fn words(s: Seq<char>) -> Seq<Seq<char>> {
    let (w, cur) = scan_words(s, s.len() as int);
    if cur.len() > 0 {
        w.push(cur)
    } else {
        w
    }
}

/// The words joined by single spaces.
pub open spec fn join_words(ws: Seq<Seq<char>>) -> Seq<char>
    decreases ws.len(),
{
    if ws.len() == 0 {
        Seq::empty()
    } else if ws.len() == 1 {
        ws[0]
    } else {
        join_words(ws.drop_last()) + seq![' '] + ws.last()
    }
}

/// Every word redacted.
pub open spec fn redact_all(ws: Seq<Seq<char>>) -> Seq<Seq<char>> {
    Seq::new(ws.len(), |i: int| redact_token(ws[i]))
}

/// The text with Bluetooth addresses and serial-like identifiers masked and
/// whitespace runs collapsed to single spaces.
pub open spec fn redacted(s: Seq<char>) -> Seq<char> {
    join_words(redact_all(words(s)))
}

/// Appends the redaction of the token `t`.
fn push_redacted_token(out: &mut String, t: &[char])
    ensures
        final(out)@ == old(out)@ + redact_token(t@),
{
    let n = t.len();
    let mut lo: usize = 0;
    assert(t@.subrange(0, n as int) =~= t@);
    while lo < n && is_noise_exec(t[lo])
        invariant
            lo <= n == t@.len(),
            strip_lead(t@) == strip_lead(t@.subrange(lo as int, n as int)),
        decreases n - lo,
    {
        assert(t@.subrange(lo as int, n as int).drop_first() =~= t@.subrange(lo + 1, n as int));
        lo = lo + 1;
    }
    let mut hi: usize = n;
    while hi > lo && is_noise_exec(t[hi - 1])
        invariant
            lo <= hi <= n == t@.len(),
            strip_lead(t@) == t@.subrange(lo as int, n as int),
            token_core(t@) == strip_trail(t@.subrange(lo as int, hi as int)),
        decreases hi - lo,
    {
        assert(t@.subrange(lo as int, hi as int).drop_last() =~= t@.subrange(lo as int, hi - 1));
        hi = hi - 1;
    }
    let ghost m = t@.subrange(lo as int, hi as int);
    assert(token_core(t@) == m);
    assert(lead_len(t@) == lo);
    let len = hi - lo;
    let mut address = len == 17;
    let mut k: usize = 0;
    while address && k < 17
        invariant
            lo <= hi <= n == t@.len(),
            m == t@.subrange(lo as int, hi as int),
            k <= 17,
            address ==> m.len() == 17,
            address ==> forall|i: int|
                0 <= i < k ==> if i % 3 == 2 {
                    #[trigger] m[i] == ':'
                } else {
                    is_hex(m[i])
                },
            !address ==> !is_address(m),
        decreases 18 - k - (if address { 0int } else { 1int }),
    {
        let c = t[lo + k];
        assert(c == m[k as int]);
        if k % 3 == 2 {
            if c != ':' {
                address = false;
            }
        } else if !is_hex_exec(c) {
            address = false;
        }
        if address {
            k = k + 1;
        }
    }
    let mut identifier = len >= 14;
    let mut j: usize = 0;
    while identifier && j < len
        invariant
            lo <= hi <= n == t@.len(),
            len == hi - lo,
            m == t@.subrange(lo as int, hi as int),
            j <= len,
            identifier ==> m.len() >= 14,
            identifier ==> forall|i: int| 0 <= i < j ==> is_alnum(#[trigger] m[i]),
            !identifier ==> !is_identifier(m),
        decreases len + 1 - j - (if identifier { 0int } else { 1int }),
    {
        let c = t[lo + j];
        assert(c == m[j as int]);
        if !is_alnum_exec(c) {
            identifier = false;
        } else {
            j = j + 1;
        }
    }
    let ghost before = out@;
    if address || identifier {
        assert(address ==> is_address(m));
        assert(identifier ==> is_identifier(m));
        let mut i: usize = 0;
        while i < lo
            invariant
                lo <= hi <= n == t@.len(),
                i <= lo,
                out@ == before + t@.take(i as int),
            decreases lo - i,
        {
            push_char(out, t[i]);
            assert(t@.take(i + 1) =~= t@.take(i as int).push(t@[i as int]));
            i = i + 1;
        }
        let ghost mid = out@;
        if address {
            push_str(out, ADDRESS_MASK);
        } else {
            push_str(out, IDENTIFIER_MASK);
        }
        let ghost mask_end = out@;
        let mut i: usize = hi;
        while i < n
            invariant
                lo <= hi <= i <= n == t@.len(),
                out@ == mask_end + t@.subrange(hi as int, i as int),
            decreases n - i,
        {
            push_char(out, t[i]);
            assert(t@.subrange(hi as int, i + 1) =~= t@.subrange(hi as int, i as int).push(
                t@[i as int],
            ));
            i = i + 1;
        }
        assert(t@.subrange(hi as int, n as int) =~= t@.skip(lead_len(t@) + token_core(t@).len()));
        assert(out@ =~= before + redact_token(t@));
    } else {
        let mut i: usize = 0;
        while i < n
            invariant
                i <= n == t@.len(),
                out@ == before + t@.take(i as int),
            decreases n - i,
        {
            push_char(out, t[i]);
            assert(t@.take(i + 1) =~= t@.take(i as int).push(t@[i as int]));
            i = i + 1;
        }
        assert(t@.take(n as int) =~= t@);
    }
}

proof fn lemma_join_push(ws: Seq<Seq<char>>, x: Seq<char>)
    ensures
        join_words(ws.push(x)) == if ws.len() == 0 {
            x
        } else {
            join_words(ws) + seq![' '] + x
        },
{
    assert(ws.push(x).drop_last() =~= ws);
}

proof fn lemma_redact_all_push(ws: Seq<Seq<char>>, x: Seq<char>)
    ensures
        redact_all(ws.push(x)) == redact_all(ws).push(redact_token(x)),
{
    assert(redact_all(ws.push(x)) =~= redact_all(ws).push(redact_token(x)));
}

/// Appends the redaction of the word `chars[start..end]` to `out`, which holds
/// the redaction of the words `ws`.
fn push_word(out: &mut String, chars: &Vec<char>, start: usize, end: usize, Ghost(ws): Ghost<
    Seq<Seq<char>>,
>)
    requires
        start < end <= chars@.len(),
        old(out)@ == join_words(redact_all(ws)),
        forall|k: int| 0 <= k < ws.len() ==> (#[trigger] ws[k]).len() > 0,
    ensures
        final(out)@ == join_words(redact_all(ws.push(chars@.subrange(start as int, end as int)))),
{
    let ghost word = chars@.subrange(start as int, end as int);
    proof {
        lemma_redact_all_push(ws, word);
        lemma_join_push(redact_all(ws), redact_token(word));
    }
    if had_words_exec(&*out, Ghost(ws)) {
        push_char(out, ' ');
    }
    let slice = &chars.as_slice()[start..end];
    assert(slice@ == word);
    push_redacted_token(out, slice);
}

proof fn lemma_strip_lens(s: Seq<char>)
    ensures
        strip_lead(s).len() <= s.len(),
        strip_trail(s).len() <= s.len(),
    decreases s.len(),
{
    if s.len() > 0 {
        lemma_strip_lens(s.drop_first());
        lemma_strip_lens(s.drop_last());
    }
}

proof fn lemma_redacted_token_nonempty(t: Seq<char>)
    requires
        t.len() > 0,
    ensures
        redact_token(t).len() > 0,
{
    lemma_strip_lens(t);
    lemma_strip_lens(strip_lead(t));
    reveal_strlit("XX:XX:XX:XX:XX:XX");
    reveal_strlit("[redacted-identifier]");
}

proof fn lemma_join_empty(ws: Seq<Seq<char>>)
    requires
        forall|i: int| 0 <= i < ws.len() ==> (#[trigger] ws[i]).len() > 0,
    ensures
        (join_words(ws).len() == 0) == (ws.len() == 0),
    decreases ws.len(),
{
    if ws.len() > 1 {
        lemma_join_empty(ws.drop_last());
    }
}

/// Whether any word was written so far: `out` is the redaction of `ws`,
/// whose words are all non-empty.
fn had_words_exec(out: &String, Ghost(ws): Ghost<Seq<Seq<char>>>) -> (r: bool)
    requires
        out@ == join_words(redact_all(ws)),
        forall|i: int| 0 <= i < ws.len() ==> (#[trigger] ws[i]).len() > 0,
    ensures
        r == (ws.len() > 0),
{
    proof {
        assert forall|i: int| 0 <= i < redact_all(ws).len() implies (#[trigger] redact_all(
            ws,
        )[i]).len() > 0 by {
            lemma_redacted_token_nonempty(ws[i]);
        }
        lemma_join_empty(redact_all(ws));
    }
    !out.as_str().is_empty()
}

proof fn lemma_lead_noise(s: Seq<char>)
    ensures
        strip_lead(s) == s.skip(lead_len(s)),
        0 <= lead_len(s) <= s.len(),
        forall|i: int| 0 <= i < lead_len(s) ==> is_noise(#[trigger] s[i]),
    decreases s.len(),
{
    if s.len() > 0 && is_noise(s[0]) {
        let d = s.drop_first();
        lemma_lead_noise(d);
        assert(d.skip(lead_len(d)) =~= s.skip(lead_len(d) + 1));
        assert forall|i: int| 0 <= i < lead_len(s) implies is_noise(#[trigger] s[i]) by {
            if i > 0 {
                assert(s[i] == d[i - 1]);
            }
        }
    } else {
        assert(s.skip(0) =~= s);
    }
}

proof fn lemma_trail_noise(s: Seq<char>)
    ensures
        strip_trail(s) == s.take(strip_trail(s).len() as int),
        strip_trail(s).len() <= s.len(),
        forall|i: int| strip_trail(s).len() <= i < s.len() ==> is_noise(#[trigger] s[i]),
    decreases s.len(),
{
    if s.len() > 0 && is_noise(s.last()) {
        let d = s.drop_last();
        lemma_trail_noise(d);
        assert(d.take(strip_trail(d).len() as int) =~= s.take(strip_trail(d).len() as int));
        assert forall|i: int| strip_trail(s).len() <= i < s.len() implies is_noise(#[trigger] s[i]) by {
            if i < s.len() - 1 {
                assert(s[i] == d[i]);
            }
        }
    } else {
        assert(s.take(s.len() as int) =~= s);
    }
}

proof fn lemma_strip_lead_noise_prefix(p: Seq<char>, x: Seq<char>)
    requires
        forall|i: int| 0 <= i < p.len() ==> is_noise(#[trigger] p[i]),
    ensures
        strip_lead(p + x) == strip_lead(x),
    decreases p.len(),
{
    if p.len() > 0 {
        assert((p + x)[0] == p[0]);
        assert((p + x).drop_first() =~= p.drop_first() + x);
        assert forall|i: int| 0 <= i < p.drop_first().len() implies is_noise(
            #[trigger] p.drop_first()[i],
        ) by {
            assert(p.drop_first()[i] == p[i + 1]);
        }
        lemma_strip_lead_noise_prefix(p.drop_first(), x);
    } else {
        assert(p + x =~= x);
    }
}

proof fn lemma_strip_trail_noise_suffix(x: Seq<char>, q: Seq<char>)
    requires
        forall|i: int| 0 <= i < q.len() ==> is_noise(#[trigger] q[i]),
    ensures
        strip_trail(x + q) == strip_trail(x),
    decreases q.len(),
{
    if q.len() > 0 {
        assert((x + q).last() == q.last());
        assert((x + q).drop_last() =~= x + q.drop_last());
        assert forall|i: int| 0 <= i < q.drop_last().len() implies is_noise(
            #[trigger] q.drop_last()[i],
        ) by {
            assert(q.drop_last()[i] == q[i]);
        }
        lemma_strip_trail_noise_suffix(x, q.drop_last());
    } else {
        assert(x + q =~= x);
    }
}

/// The core of a masked token is the core of the mask: the middle of `mask`
/// between its first `lead` and its last `trail` characters, which are noise.
proof fn lemma_masked_core(t: Seq<char>, mask: Seq<char>, lead: int, trail: int)
    requires
        0 <= lead,
        0 <= trail,
        lead + trail < mask.len(),
        forall|i: int| 0 <= i < lead ==> is_noise(#[trigger] mask[i]),
        forall|i: int| mask.len() - trail <= i < mask.len() ==> is_noise(#[trigger] mask[i]),
        !is_noise(mask[lead]),
        !is_noise(mask[mask.len() - trail - 1]),
    ensures
        token_core(masked(t, mask)) == mask.subrange(lead, mask.len() - trail),
{
    lemma_lead_noise(t);
    let u = strip_lead(t);
    lemma_trail_noise(u);
    let p = t.take(lead_len(t));
    let q = t.skip(lead_len(t) + token_core(t).len());
    assert(q =~= u.skip(strip_trail(u).len() as int));
    assert forall|i: int| 0 <= i < p.len() implies is_noise(#[trigger] p[i]) by {
        assert(p[i] == t[i]);
    }
    assert forall|i: int| 0 <= i < q.len() implies is_noise(#[trigger] q[i]) by {
        assert(q[i] == u[strip_trail(u).len() + i]);
    }
    let head = mask.take(lead);
    let mid = mask.subrange(lead, mask.len() - trail);
    let tail = mask.skip(mask.len() - trail);
    assert(masked(t, mask) =~= p + (head + ((mid + tail) + q)));
    assert forall|i: int| 0 <= i < head.len() implies is_noise(#[trigger] head[i]) by {
        assert(head[i] == mask[i]);
    }
    assert forall|i: int| 0 <= i < tail.len() implies is_noise(#[trigger] tail[i]) by {
        assert(tail[i] == mask[mask.len() - trail + i]);
    }
    lemma_strip_lead_noise_prefix(p, head + ((mid + tail) + q));
    lemma_strip_lead_noise_prefix(head, (mid + tail) + q);
    assert(((mid + tail) + q)[0] == mid[0]);
    assert(strip_lead((mid + tail) + q) == (mid + tail) + q);
    assert((mid + tail) + q =~= (mid + (tail + q)));
    assert forall|i: int| 0 <= i < (tail + q).len() implies is_noise(#[trigger] (tail + q)[i]) by {
        if i < tail.len() {
            assert((tail + q)[i] == tail[i]);
        } else {
            assert((tail + q)[i] == q[i - tail.len()]);
        }
    }
    lemma_strip_trail_noise_suffix(mid, tail + q);
    assert(mid.last() == mask[mask.len() - trail - 1]);
}

/// No redacted token still holds a Bluetooth address or a serial-like
/// identifier at its core.
pub proof fn law_redacted_tokens_hide_identifiers(t: Seq<char>)
    ensures
        !is_address(token_core(redact_token(t))),
        !is_identifier(token_core(redact_token(t))),
{
    let m = token_core(t);
    if is_address(m) {
        reveal_strlit("XX:XX:XX:XX:XX:XX");
        let mask = ADDRESS_MASK@;
        lemma_masked_core(t, mask, 2, 2);
        let c = mask.subrange(2, 15);
        assert(c.len() == 13);
    } else if is_identifier(m) {
        reveal_strlit("[redacted-identifier]");
        let mask = IDENTIFIER_MASK@;
        lemma_masked_core(t, mask, 2, 2);
        let c = mask.subrange(2, 19);
        assert(c[2] == 'a');
        assert(c[7] == '-');
        assert(!is_alnum(c[7]));
    }
}

/// No character of `x` is whitespace.
pub open spec fn no_ws(x: Seq<char>) -> bool {
    forall|i: int| 0 <= i < x.len() ==> !is_ws(#[trigger] x[i])
}

proof fn lemma_scan_prefix(a: Seq<char>, b: Seq<char>, n: int)
    requires
        0 <= n <= a.len(),
        n <= b.len(),
        forall|i: int| 0 <= i < n ==> a[i] == b[i],
    ensures
        scan_words(a, n) == scan_words(b, n),
    decreases n,
{
    if n > 0 {
        lemma_scan_prefix(a, b, n - 1);
        assert(a[n - 1] == b[n - 1]);
    }
}

proof fn lemma_scan_append_word(s: Seq<char>, x: Seq<char>)
    requires
        no_ws(x),
    ensures
        scan_words(s + x, (s.len() + x.len()) as int) == (
            scan_words(s, s.len() as int).0,
            scan_words(s, s.len() as int).1 + x,
        ),
    decreases x.len(),
{
    if x.len() == 0 {
        assert(s + x =~= s);
        assert(scan_words(s, s.len() as int).1 + x =~= scan_words(s, s.len() as int).1);
    } else {
        let y = x.drop_last();
        assert forall|i: int| 0 <= i < y.len() implies !is_ws(#[trigger] y[i]) by {
            assert(y[i] == x[i]);
        }
        lemma_scan_append_word(s, y);
        let n = s.len() + x.len();
        assert forall|i: int| 0 <= i < n - 1 implies (s + x)[i] == (s + y)[i] by {
            if i < s.len() {
            } else {
                assert(x[i - s.len()] == y[i - s.len()]);
            }
        }
        lemma_scan_prefix(s + x, s + y, n - 1);
        assert((s + x)[n - 1] == x.last());
        assert(!is_ws(x.last()));
        assert((scan_words(s, s.len() as int).1 + y).push(x.last()) =~= scan_words(
            s,
            s.len() as int,
        ).1 + x);
    }
}

/// Splitting the text joined from words, none empty and none holding
/// whitespace, gives the words back.
proof fn lemma_scan_of_join(ts: Seq<Seq<char>>)
    requires
        ts.len() > 0,
        forall|i: int| 0 <= i < ts.len() ==> (#[trigger] ts[i]).len() > 0 && no_ws(ts[i]),
    ensures
        scan_words(join_words(ts), join_words(ts).len() as int) == (ts.drop_last(), ts.last()),
    decreases ts.len(),
{
    if ts.len() == 1 {
        let e = Seq::<char>::empty();
        lemma_scan_append_word(e, ts[0]);
        assert(e + ts[0] =~= ts[0]);
        assert(ts.drop_last() =~= Seq::<Seq<char>>::empty());
    } else {
        let d = ts.drop_last();
        assert forall|i: int| 0 <= i < d.len() implies (#[trigger] d[i]).len() > 0 && no_ws(d[i]) by {
            assert(d[i] == ts[i]);
        }
        lemma_scan_of_join(d);
        let p = join_words(d);
        let q = p + seq![' '];
        let l = ts.last();
        assert(join_words(ts) == q + l);
        assert forall|i: int| 0 <= i < p.len() implies q[i] == p[i] by {}
        lemma_scan_prefix(q, p, p.len() as int);
        assert(d.last() == ts[ts.len() - 2]);
        assert(q[p.len() as int] == ' ');
        assert(d.drop_last().push(d.last()) =~= d);
        assert(scan_words(q, q.len() as int) == (d, Seq::<char>::empty()));
        lemma_scan_append_word(q, l);
        assert(Seq::<char>::empty() + l =~= l);
    }
}

proof fn lemma_words_of_join(ts: Seq<Seq<char>>)
    requires
        forall|i: int| 0 <= i < ts.len() ==> (#[trigger] ts[i]).len() > 0 && no_ws(ts[i]),
    ensures
        words(join_words(ts)) == ts,
{
    if ts.len() == 0 {
        assert(words(Seq::<char>::empty()) =~= ts);
    } else {
        lemma_scan_of_join(ts);
        assert(ts.drop_last().push(ts.last()) =~= ts);
    }
}

proof fn lemma_scan_words_shape(s: Seq<char>, n: int)
    requires
        0 <= n <= s.len(),
    ensures
        forall|i: int|
            0 <= i < scan_words(s, n).0.len() ==> (#[trigger] scan_words(s, n).0[i]).len() > 0
                && no_ws(scan_words(s, n).0[i]),
        no_ws(scan_words(s, n).1),
    decreases n,
{
    if n > 0 {
        lemma_scan_words_shape(s, n - 1);
        let (w, cur) = scan_words(s, n - 1);
        if !is_ws(s[n - 1]) {
            assert forall|i: int| 0 <= i < cur.push(s[n - 1]).len() implies !is_ws(
                #[trigger] cur.push(s[n - 1])[i],
            ) by {
                if i < cur.len() {
                    assert(cur.push(s[n - 1])[i] == cur[i]);
                }
            }
        } else if cur.len() > 0 {
            assert forall|i: int| 0 <= i < w.push(cur).len() implies (#[trigger] w.push(cur)[i]).len()
                > 0 && no_ws(w.push(cur)[i]) by {
                if i < w.len() {
                    assert(w.push(cur)[i] == w[i]);
                }
            }
        }
    }
}

proof fn lemma_words_shape(s: Seq<char>)
    ensures
        forall|i: int| 0 <= i < words(s).len() ==> (#[trigger] words(s)[i]).len() > 0 && no_ws(words(s)[i]),
{
    lemma_scan_words_shape(s, s.len() as int);
    let (w, cur) = scan_words(s, s.len() as int);
    if cur.len() > 0 {
        assert forall|i: int| 0 <= i < w.push(cur).len() implies (#[trigger] w.push(cur)[i]).len() > 0
            && no_ws(w.push(cur)[i]) by {
            if i < w.len() {
                assert(w.push(cur)[i] == w[i]);
            }
        }
    }
}

proof fn lemma_redacted_token_no_ws(t: Seq<char>)
    requires
        no_ws(t),
    ensures
        no_ws(redact_token(t)),
{
    lemma_lead_noise(t);
    lemma_trail_noise(strip_lead(t));
    lemma_strip_lens(t);
    lemma_strip_lens(strip_lead(t));
    reveal_strlit("XX:XX:XX:XX:XX:XX");
    reveal_strlit("[redacted-identifier]");
    let m = token_core(t);
    if is_address(m) || is_identifier(m) {
        let mask = if is_address(m) {
            ADDRESS_MASK@
        } else {
            IDENTIFIER_MASK@
        };
        assert(no_ws(mask));
        let a = t.take(lead_len(t));
        let b = t.skip(lead_len(t) + m.len());
        assert(no_ws(a)) by {
            assert forall|i: int| 0 <= i < a.len() implies !is_ws(#[trigger] a[i]) by {
                assert(a[i] == t[i]);
            }
        }
        assert(no_ws(b)) by {
            assert forall|i: int| 0 <= i < b.len() implies !is_ws(#[trigger] b[i]) by {
                assert(b[i] == t[lead_len(t) + m.len() + i]);
            }
        }
        let r = a + mask + b;
        assert(r == redact_token(t));
        assert forall|i: int| 0 <= i < r.len() implies !is_ws(#[trigger] r[i]) by {
            if i < a.len() {
                assert(r[i] == a[i]);
            } else if i < a.len() + mask.len() {
                assert(r[i] == mask[i - a.len()]);
            } else {
                assert(r[i] == b[i - a.len() - mask.len()]);
            }
        }
    }
}

/// Redacting a token twice gives what redacting it once gave.
proof fn lemma_redact_token_idempotent(t: Seq<char>)
    ensures
        redact_token(redact_token(t)) == redact_token(t),
{
    law_redacted_tokens_hide_identifiers(t);
}

/// Redaction is idempotent: redacting already redacted text changes nothing.
pub proof fn law_redaction_is_idempotent(s: Seq<char>)
    ensures
        redacted(redacted(s)) == redacted(s),
{
    let ws = words(s);
    let r = redact_all(ws);
    lemma_words_shape(s);
    assert forall|i: int| 0 <= i < r.len() implies (#[trigger] r[i]).len() > 0 && no_ws(r[i]) by {
        lemma_redacted_token_nonempty(ws[i]);
        lemma_redacted_token_no_ws(ws[i]);
    }
    lemma_words_of_join(r);
    assert forall|i: int| 0 <= i < r.len() implies #[trigger] redact_all(r)[i] == r[i] by {
        lemma_redact_token_idempotent(ws[i]);
    }
    assert(redact_all(r) =~= r);
}

/// Masks Bluetooth addresses and serial-like identifiers before text reaches a
/// log. Whitespace runs become single spaces.
pub fn redact_sensitive(input: &str) -> (r: String)
    ensures
        r@ == redacted(input@),
{
    let chars = chars_of(input);
    let n = chars.len();
    let mut out = String::new();
    let mut start: usize = 0;
    let mut i: usize = 0;
    while i < n
        invariant
            n == chars@.len(),
            start <= i <= n,
            scan_words(chars@, i as int).1 == chars@.subrange(start as int, i as int),
            forall|k: int|
                0 <= k < scan_words(chars@, i as int).0.len() ==> (#[trigger] scan_words(
                    chars@,
                    i as int,
                ).0[k]).len() > 0,
            out@ == join_words(redact_all(scan_words(chars@, i as int).0)),
        decreases n - i,
    {
        let ghost ws = scan_words(chars@, i as int).0;
        if is_whitespace(chars[i]) {
            if start < i {
                push_word(&mut out, &chars, start, i, Ghost(ws));
            }
            start = i + 1;
        }
        assert(chars@.subrange(start as int, i + 1) =~= if start == i + 1 {
            Seq::<char>::empty()
        } else {
            chars@.subrange(start as int, i as int).push(chars@[i as int])
        });
        i = i + 1;
    }
    if start < n {
        let ghost ws = scan_words(chars@, n as int).0;
        push_word(&mut out, &chars, start, n, Ghost(ws));
    }
    out
}

/// A chunk of log output as it is written to the diagnostics file: its text
/// redacted, and the final newline kept when the chunk had one.
pub open spec fn redacted_log(bytes: Seq<u8>) -> Seq<char> {
    redacted(utf8_lossy(bytes)) + if bytes.len() > 0 && bytes.last() == 0x0a {
        seq!['\n']
    } else {
        Seq::empty()
    }
}

/// Redacts a chunk of log output for the diagnostics file.
pub fn redact_log_chunk(bytes: &[u8]) -> (r: String)
    ensures
        r@ == redacted_log(bytes@),
{
    let text = from_utf8_lossy(bytes);
    let mut r = redact_sensitive(text.as_str());
    if bytes.len() > 0 && bytes[bytes.len() - 1] == 0x0a {
        push_char(&mut r, '\n');
    } else {
        assert(r@ + Seq::<char>::empty() =~= r@);
    }
    r
}

// -------------------------------------------------------------- file layout

/// The XDG directories the application writes to.
#[derive(Debug, Clone)]
pub struct Paths {
    pub config_dir: String,
    pub state_dir: String,
    pub data_dir: String,
}

impl Paths {
    /// `config.json` in the configuration directory.
    pub fn config_file(&self) -> (r: String)
        ensures
            r@ == path_join(self.config_dir@, "config.json"@),
    {
        join_path(self.config_dir.as_str(), "config.json")
    }

    /// `eq-profiles.json` in the configuration directory.
    pub fn profiles_file(&self) -> (r: String)
        ensures
            r@ == path_join(self.config_dir@, "eq-profiles.json"@),
    {
        join_path(self.config_dir.as_str(), "eq-profiles.json")
    }

    /// `diagnostics.log` in the state directory.
    pub fn diagnostics_file(&self) -> (r: String)
        ensures
            r@ == path_join(self.state_dir@, "diagnostics.log"@),
    {
        join_path(self.state_dir.as_str(), "diagnostics.log")
    }
}

// ------------------------------------------------------------------ settings

/// User settings; every option is off until the user turns it on.
#[derive(Debug, Clone, Copy, PartialEq, Eq, Structural)]
pub struct AppConfig {
    pub start_at_login: bool,
    pub first_close_explained: bool,
    pub raw_protocol_logging: bool,
}

impl Default for AppConfig {
    fn default() -> (c: AppConfig)
        ensures
            c == (AppConfig {
                start_at_login: false,
                first_close_explained: false,
                raw_protocol_logging: false,
            }),
    {
        AppConfig { start_at_login: false, first_close_explained: false, raw_protocol_logging: false }
    }
}

pub const APP_ID: &'static str = "io.github.nothinglinux.nothinglinux";

/// Where autostart entries live: `$XDG_CONFIG_HOME/autostart`, else
/// `$HOME/.config/autostart`.
pub open spec fn autostart_dir_spec(xdg_config_home: Option<Seq<char>>, home: Option<Seq<char>>) -> Option<
    Seq<char>,
> {
    match xdg_config_home {
        Some(x) => Some(path_join(x, "autostart"@)),
        None => match home {
            Some(h) => Some(path_join(path_join(h, ".config"@), "autostart"@)),
            None => None,
        },
    }
}

/// The autostart directory for the given `XDG_CONFIG_HOME` and `HOME`
/// values; `None` when neither is set.
pub fn autostart_directory(xdg_config_home: Option<&str>, home: Option<&str>) -> (r: Option<String>)
    ensures
        match r {
            Some(d) => autostart_dir_spec(
                match xdg_config_home {
                    Some(x) => Some(x@),
                    None => None,
                },
                match home {
                    Some(h) => Some(h@),
                    None => None,
                },
            ) == Some(d@),
            None => xdg_config_home is None && home is None,
        },
{
    match xdg_config_home {
        Some(x) => Some(join_path(x, "autostart")),
        None => match home {
            Some(h) => {
                let config = join_path(h, ".config");
                Some(join_path(config.as_str(), "autostart"))
            },
            None => None,
        },
    }
}

/// The autostart entry's file inside `directory`.
pub fn autostart_file(directory: &str) -> (r: String)
    ensures
        r@ == path_join(directory@, APP_ID@ + ".desktop"@),
{
    let mut name = String::from_str(APP_ID);
    push_str(&mut name, ".desktop");
    join_path(directory, name.as_str())
}

/// The desktop entry that starts the application in the background at login.
pub open spec fn autostart_entry_spec() -> Seq<char> {
    "[Desktop Entry]\nType=Application\nName=Nothing Linux\nExec=nothing-linux --background\nIcon="@
        + APP_ID@ + "\nTerminal=false\nX-GNOME-Autostart-enabled=true\n"@
}

pub fn autostart_entry() -> (r: String)
    ensures
        r@ == autostart_entry_spec(),
{
    let mut body = String::from_str(
        "[Desktop Entry]\nType=Application\nName=Nothing Linux\nExec=nothing-linux --background\nIcon=",
    );
    push_str(&mut body, APP_ID);
    push_str(&mut body, "\nTerminal=false\nX-GNOME-Autostart-enabled=true\n");
    body
}

// ------------------------------------------------------------------- errors

#[verifier::external_type_specification]
#[verifier::external_body]
pub struct ExIoError(std::io::Error);

#[verifier::external_type_specification]
#[verifier::external_body]
pub struct ExJsonError(serde_json::Error);

/// Why settings or profiles could not be read or written.
#[derive(Debug)]
pub enum PersistenceError {
    NoXdgDirectories,
    Io(std::io::Error),
    Json(serde_json::Error),
    TooManyProfiles,
    InvalidProfile(String),
}

/// The `Display` text of an I/O error. Nothing is stated: the text comes from
/// the operating system.
#[verifier::external_body]
fn io_error_text(error: &std::io::Error) -> String {
    format!("{error}")
}

/// The `Display` text of a JSON error. Nothing is stated of the text.
#[verifier::external_body]
fn json_error_text(error: &serde_json::Error) -> String {
    format!("{error}")
}

impl PersistenceError {
    /// The description shown to users, as `to_string` would give it.
    pub fn message(&self) -> (m: String)
        ensures
            match self {
                PersistenceError::NoXdgDirectories => m@
                    == "XDG application directories are unavailable"@,
                PersistenceError::Io(_) => "I/O error: "@.is_prefix_of(m@),
                PersistenceError::Json(_) => "invalid JSON: "@.is_prefix_of(m@),
                PersistenceError::TooManyProfiles => m@ == "at most 20 EQ profiles are supported"@,
                PersistenceError::InvalidProfile(what) => m@ == "invalid EQ profile: "@ + what@,
            },
    {
        let mut m = String::new();
        match self {
            PersistenceError::NoXdgDirectories => {
                push_str(&mut m, "XDG application directories are unavailable");
            },
            PersistenceError::Io(error) => {
                push_str(&mut m, "I/O error: ");
                let text = io_error_text(error);
                let ghost head = m@;
                push_str(&mut m, text.as_str());
                assert(m@.subrange(0, head.len() as int) =~= head);
            },
            PersistenceError::Json(error) => {
                push_str(&mut m, "invalid JSON: ");
                let text = json_error_text(error);
                let ghost head = m@;
                push_str(&mut m, text.as_str());
                assert(m@.subrange(0, head.len() as int) =~= head);
            },
            PersistenceError::TooManyProfiles => {
                push_str(&mut m, "at most 20 EQ profiles are supported");
            },
            PersistenceError::InvalidProfile(what) => {
                push_str(&mut m, "invalid EQ profile: ");
                push_str(&mut m, what.as_str());
            },
        }
        proof {
            reveal_strlit("I/O error: ");
            reveal_strlit("invalid JSON: ");
        }
        m
    }
}

// ----------------------------------------------------------- saved profiles

/// At most this many advanced-EQ profiles are kept.
pub const MAX_PROFILES: usize = 20;

/// The profile passes `AdvancedEqProfile::validate`.
pub open spec fn profile_valid(p: AdvancedEqProfile) -> bool {
    profile_check(p.name@, p.bands@) is Ok
}

/// The message of the profile's validation error.
pub open spec fn profile_error(p: AdvancedEqProfile) -> Seq<char> {
    match profile_check(p.name@, p.bands@) {
        Err(e) => error_message(e),
        Ok(_) => Seq::empty(),
    }
}

/// The first `n` profiles are valid.
pub open spec fn valid_upto(ps: Seq<AdvancedEqProfile>, n: int) -> bool {
    forall|i: int| 0 <= i < n ==> profile_valid(#[trigger] ps[i])
}

/// What validating the profile list `ps` gives.
pub open spec fn store_checked(ps: Seq<AdvancedEqProfile>, r: Result<(), PersistenceError>) -> bool {
    match r {
        Ok(()) => ps.len() <= 20 && valid_upto(ps, ps.len() as int),
        Err(PersistenceError::TooManyProfiles) => ps.len() > 20,
        Err(PersistenceError::InvalidProfile(m)) => ps.len() <= 20 && exists|i: int|
            0 <= i < ps.len() && valid_upto(ps, i) && !profile_valid(#[trigger] ps[i]) && m@
                == profile_error(ps[i]),
        Err(_) => false,
    }
}

/// The saved advanced-EQ profiles.
#[derive(Debug, Clone, PartialEq)]
pub struct EqProfileStore(pub Vec<AdvancedEqProfile>);

impl Default for EqProfileStore {
    fn default() -> (s: EqProfileStore)
        ensures
            s.0@.len() == 0,
    {
        EqProfileStore(Vec::new())
    }
}

fn invalid_profile(e: ProtocolError) -> (r: PersistenceError)
    ensures
        r matches PersistenceError::InvalidProfile(m) && m@ == error_message(e),
{
    PersistenceError::InvalidProfile(e.message())
}

impl EqProfileStore {
    /// Refuses more than twenty profiles, then the first invalid one.
    pub fn validate(&self) -> (r: Result<(), PersistenceError>)
        ensures
            store_checked(self.0@, r),
    {
        if self.0.len() > MAX_PROFILES {
            return Err(PersistenceError::TooManyProfiles);
        }
        let mut i: usize = 0;
        while i < self.0.len()
            invariant
                i <= self.0@.len() <= 20,
                valid_upto(self.0@, i as int),
            decreases self.0@.len() - i,
        {
            match self.0[i].validate() {
                Ok(()) => {},
                Err(e) => {
                    let r = Err(invalid_profile(e));
                    assert(!profile_valid(self.0@[i as int]));
                    assert(store_checked(self.0@, r));
                    return r;
                },
            }
            i = i + 1;
        }
        Ok(())
    }

    /// Adds a profile: refused when twenty are stored already or the profile
    /// is invalid, and then the store is unchanged.
    pub fn push(&mut self, profile: AdvancedEqProfile) -> (r: Result<(), PersistenceError>)
        ensures
            match r {
                Ok(()) => old(self).0@.len() < 20 && profile_valid(profile) && final(self).0@ == old(
                    self,
                ).0@.push(profile),
                Err(PersistenceError::TooManyProfiles) => old(self).0@.len() >= 20 && final(self).0@
                    == old(self).0@,
                Err(PersistenceError::InvalidProfile(m)) => old(self).0@.len() < 20 && !profile_valid(
                    profile,
                ) && m@ == profile_error(profile) && final(self).0@ == old(self).0@,
                Err(_) => false,
            },
            old(self).0@.len() <= 20 ==> final(self).0@.len() <= 20,
    {
        if self.0.len() >= MAX_PROFILES {
            return Err(PersistenceError::TooManyProfiles);
        }
        match profile.validate() {
            Ok(()) => {},
            Err(e) => {
                return Err(invalid_profile(e));
            },
        }
        self.0.push(profile);
        Ok(())
    }
}

/// Bits of the binary32 value 1.0, the Q of a flat band.
pub const UNIT_Q: u32 = 0x3f80_0000;

/// Eight flat bands at the default centre frequencies.
pub open spec fn neutral_bands() -> Seq<EqBand> {
    Seq::new(8, |i: int| EqBand { frequency_hz: ADVANCED_EQ_FREQUENCIES[i], gain_db: 0, q: UNIT_Q })
}

/// A flat profile: no gain, Q 1, every band at its default frequency.
pub fn neutral_profile(name: &str) -> (p: AdvancedEqProfile)
    ensures
        p.name@ == name@,
        p.bands@ == neutral_bands(),
{
    let mut bands: Vec<EqBand> = Vec::new();
    let mut i: usize = 0;
    while i < 8
        invariant
            i <= 8,
            bands@ =~= neutral_bands().take(i as int),
        decreases 8 - i,
    {
        bands.push(EqBand { frequency_hz: ADVANCED_EQ_FREQUENCIES[i], gain_db: 0, q: UNIT_Q });
        i = i + 1;
    }
    assert(neutral_bands().take(8) =~= neutral_bands());
    AdvancedEqProfile { name: String::from_str(name), bands }
}

/// The flat bands pass validation.
proof fn lemma_neutral_bands_valid()
    ensures
        forall|i: int| 0 <= i < 8 ==> band_ok(#[trigger] neutral_bands()[i], i),
{
    assert(band_ok(neutral_bands()[0], 0));
    assert(band_ok(neutral_bands()[1], 1));
    assert(band_ok(neutral_bands()[2], 2));
    assert(band_ok(neutral_bands()[3], 3));
    assert(band_ok(neutral_bands()[4], 4));
    assert(band_ok(neutral_bands()[5], 5));
    assert(band_ok(neutral_bands()[6], 6));
    assert(band_ok(neutral_bands()[7], 7));
}

/// The name of the profile an empty store starts with.
pub const FIRST_PROFILE_NAME: &'static str = "Custom 1";

impl EqProfileStore {
    /// Gives an empty store its first profile, a flat "Custom 1"; a store
    /// that holds profiles is left alone.
    pub fn seed_default(&mut self)
        ensures
            old(self).0@.len() == 0 ==> final(self).0@.len() == 1 && final(self).0@[0].name@
                == FIRST_PROFILE_NAME@ && final(self).0@[0].bands@ == neutral_bands(),
            old(self).0@.len() > 0 ==> final(self).0@ == old(self).0@,
    {
        if self.0.len() == 0 {
            let profile = neutral_profile(FIRST_PROFILE_NAME);
            proof {
                lemma_neutral_bands_valid();
                reveal_strlit("Custom 1");
                lemma_trim_blank(profile.name@);
                assert(!crate::text::is_ws(profile.name@[0]));
                assert(profile_valid(profile));
            }
            let r = self.push(profile);
            assert(r is Ok);
        }
    }
}

} // verus!
