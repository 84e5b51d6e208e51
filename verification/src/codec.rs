//! The flat text form of a credential map: one `KEY=VALUE` per line.

use vstd::prelude::*;
use vstd::string::*;
use crate::envmap::{
    canonical_pairs, insert_all, lemma_canonical_pairs, lemma_sorted_pairs_exist,
    lemma_to_map_lookup, sorted_pairs, to_map, CredentialMap,
};
use crate::text::to_chars;

verus! {

/// The characters that count as surrounding whitespace: those with the
/// Unicode property White_Space.
pub open spec fn is_space(c: char) -> bool {
    let u = c as u32;
    ||| 0x09 <= u <= 0x0D
    ||| u == 0x20
    ||| u == 0x85
    ||| u == 0xA0
    ||| u == 0x1680
    ||| 0x2000 <= u <= 0x200A
    ||| u == 0x2028
    ||| u == 0x2029
    ||| u == 0x202F
    ||| u == 0x205F
    ||| u == 0x3000
}

/// Whether a character counts as whitespace.
pub fn is_whitespace(c: char) -> (r: bool)
    ensures
        r == is_space(c),
{
    let u: u32 = c as u32;
    (0x09 <= u && u <= 0x0D) || u == 0x20 || u == 0x85 || u == 0xA0 || u == 0x1680 || (0x2000 <= u
        && u <= 0x200A) || u == 0x2028 || u == 0x2029 || u == 0x202F || u == 0x205F || u == 0x3000
}

/// `s` without its leading whitespace.
pub open spec fn trim_start(s: Seq<char>) -> Seq<char>
    decreases s.len(),
{
    if s.len() > 0 && is_space(s[0]) {
        trim_start(s.drop_first())
    } else {
        s
    }
}

/// `s` without its trailing whitespace.
pub open spec fn trim_end(s: Seq<char>) -> Seq<char>
    decreases s.len(),
{
    if s.len() > 0 && is_space(s.last()) {
        trim_end(s.drop_last())
    } else {
        s
    }
}

/// `s` without its surrounding whitespace.
pub open spec fn trim(s: Seq<char>) -> Seq<char> {
    trim_end(trim_start(s))
}

/// The first position of `c` in `s`, or the length of `s` if it has none.
pub open spec fn find(s: Seq<char>, c: char) -> int
    decreases s.len(),
{
    if s.len() == 0 || s[0] == c {
        0
    } else {
        1 + find(s.drop_first(), c)
    }
}

/// What one line does to the mapping decoded so far: nothing if it is blank,
/// starts a comment or holds no `=`; else it puts what follows the first `=`
/// under what precedes it, both without surrounding whitespace.
pub open spec fn apply_line(m: Map<Seq<char>, Seq<char>>, line: Seq<char>) -> Map<
    Seq<char>,
    Seq<char>,
> {
    let t = trim_start(line);
    let i = find(line, '=');
    if t.len() == 0 || t[0] == '#' || i == line.len() {
        m
    } else {
        m.insert(trim(line.take(i)), trim(line.skip(i + 1)))
    }
}

/// Decodes `rest`, a line of which `line` has been read already, on top of `m`.
/// Lines end at each line feed and at the end of the text.
pub open spec fn decode_scan(
    m: Map<Seq<char>, Seq<char>>,
    line: Seq<char>,
    rest: Seq<char>,
) -> Map<Seq<char>, Seq<char>>
    decreases rest.len(),
{
    if rest.len() == 0 {
        apply_line(m, line)
    } else if rest[0] == '\n' {
        decode_scan(apply_line(m, line), Seq::empty(), rest.drop_first())
    } else {
        decode_scan(m, line.push(rest[0]), rest.drop_first())
    }
}

/// The mapping that a text decodes to: its lines applied from first to last.
pub open spec fn decode_text(text: Seq<char>) -> Map<Seq<char>, Seq<char>> {
    decode_scan(Map::empty(), Seq::empty(), text)
}

/// The line that holds one pair.
pub open spec fn line_of(p: (Seq<char>, Seq<char>)) -> Seq<char> {
    p.0 + seq!['='] + p.1 + seq!['\n']
}

/// The text that holds `pairs`, one line each, in their order.
pub open spec fn encode_pairs(pairs: Seq<(Seq<char>, Seq<char>)>) -> Seq<char>
    decreases pairs.len(),
{
    if pairs.len() == 0 {
        Seq::empty()
    } else {
        encode_pairs(pairs.drop_last()) + line_of(pairs.last())
    }
}

/// The text that holds a mapping: a line for each key, in key order.
pub open spec fn encode_map(m: Map<Seq<char>, Seq<char>>) -> Seq<char> {
    encode_pairs(canonical_pairs(m))
}

/// A key that comes back from the text as it went in.
pub open spec fn plain_key(k: Seq<char>) -> bool {
    &&& !k.contains('=')
    &&& !k.contains('\n')
    &&& trim(k) == k
    &&& (k.len() > 0 ==> k[0] != '#')
}

/// A value that comes back from the text as it went in.
pub open spec fn plain_value(v: Seq<char>) -> bool {
    &&& !v.contains('\n')
    &&& trim(v) == v
}

/// Whether every key and every value of the sequence is plain.
pub open spec fn plain_pairs(pairs: Seq<(Seq<char>, Seq<char>)>) -> bool {
    forall|i: int|
        0 <= i < pairs.len() ==> plain_key(#[trigger] pairs[i].0) && plain_value(pairs[i].1)
}

/// Whether every key and every value of a mapping is plain.
pub open spec fn plain_map(m: Map<Seq<char>, Seq<char>>) -> bool {
    forall|k: Seq<char>| #[trigger] m.dom().contains(k) ==> plain_key(k) && plain_value(m[k])
}

/// The text that `String::from_utf8_lossy` makes of a byte string.
pub uninterp spec fn utf8_lossy(bytes: Seq<u8>) -> Seq<char>;

/// The text of a byte string: the text that it encodes, or, where it is no
/// valid UTF-8, the text that is made of it with replacement characters.
pub open spec fn lossy_text(bytes: Seq<u8>) -> Seq<char> {
    if vstd::utf8::valid_utf8(bytes) {
        vstd::utf8::decode_utf8(bytes)
    } else {
        utf8_lossy(bytes)
    }
}

/// The first position of `c` is the one before which `c` does not occur
/// and at which it does, or the length where it occurs nowhere.
pub proof fn lemma_find(s: Seq<char>, c: char, i: int)
    requires
        0 <= i <= s.len(),
        forall|j: int| 0 <= j < i ==> s[j] != c,
        i < s.len() ==> s[i] == c,
    ensures
        find(s, c) == i,
    decreases s.len(),
{
    if i > 0 {
        lemma_find(s.drop_first(), c, i - 1);
    }
}

proof fn lemma_scan_line(m: Map<Seq<char>, Seq<char>>, line: Seq<char>, rest: Seq<char>, k: int)
    requires
        0 <= k <= rest.len(),
        forall|j: int| 0 <= j < k ==> rest[j] != '\n',
    ensures
        decode_scan(m, line, rest) == decode_scan(m, line + rest.take(k), rest.skip(k)),
    decreases k,
{
    if k == 0 {
        assert(line + rest.take(0) =~= line);
        assert(rest.skip(0) =~= rest);
    } else {
        let tail = rest.drop_first();
        lemma_scan_line(m, line.push(rest[0]), tail, k - 1);
        assert(line.push(rest[0]) + tail.take(k - 1) =~= line + rest.take(k));
        assert(tail.skip(k - 1) =~= rest.skip(k));
    }
}

proof fn lemma_trim_lengths(s: Seq<char>)
    ensures
        trim_start(s).len() <= s.len(),
        trim_end(s).len() <= s.len(),
        s.len() > 0 && is_space(s[0]) ==> trim_start(s).len() < s.len(),
    decreases s.len(),
{
    if s.len() > 0 {
        lemma_trim_lengths(s.drop_first());
        lemma_trim_lengths(s.drop_last());
    }
}

/// Text equal to its own trimming neither starts nor ends with whitespace.
pub proof fn lemma_trimmed_ends(s: Seq<char>)
    requires
        trim(s) == s,
        s.len() > 0,
    ensures
        !is_space(s[0]),
        !is_space(s.last()),
{
    lemma_trim_lengths(s);
    lemma_trim_lengths(trim_start(s));
    if !is_space(s[0]) && is_space(s.last()) {
        lemma_trim_lengths(s.drop_last());
    }
}

proof fn lemma_apply_plain_line(m: Map<Seq<char>, Seq<char>>, k: Seq<char>, v: Seq<char>)
    requires
        plain_key(k),
        plain_value(v),
    ensures
        apply_line(m, k + seq!['='] + v) == m.insert(k, v),
{
    let body = k + seq!['='] + v;
    if k.len() > 0 {
        lemma_trimmed_ends(k);
    }
    assert(!is_space('='));
    assert(body[0] == if k.len() > 0 { k[0] } else { '=' });
    assert(trim_start(body) == body);
    assert forall|j: int| 0 <= j < k.len() implies body[j] != '=' by {
        assert(body[j] == k[j]);
        assert(k.contains(k[j]));
    }
    assert(body[k.len() as int] == '=');
    lemma_find(body, '=', k.len() as int);
    assert(body.take(k.len() as int) =~= k);
    assert(body.skip(k.len() as int + 1) =~= v);
}

proof fn lemma_decode_one_line(
    m: Map<Seq<char>, Seq<char>>,
    p: (Seq<char>, Seq<char>),
    rest: Seq<char>,
)
    requires
        plain_key(p.0),
        plain_value(p.1),
    ensures
        decode_scan(m, Seq::empty(), line_of(p) + rest) == decode_scan(
            m.insert(p.0, p.1),
            Seq::empty(),
            rest,
        ),
{
    let body = p.0 + seq!['='] + p.1;
    let text = line_of(p) + rest;
    let n = body.len() as int;
    assert forall|j: int| 0 <= j < n implies text[j] != '\n' by {
        if j < p.0.len() {
            assert(text[j] == p.0[j]);
            assert(p.0.contains(p.0[j]));
        } else if j > p.0.len() {
            assert(text[j] == p.1[j - p.0.len() - 1]);
            assert(p.1.contains(p.1[j - p.0.len() - 1]));
        } else {
            assert(text[j] == '=');
        }
    }
    lemma_scan_line(m, Seq::empty(), text, n);
    assert(Seq::<char>::empty() + text.take(n) =~= body);
    assert(text.skip(n)[0] == '\n');
    assert(text.skip(n).drop_first() =~= rest);
    lemma_apply_plain_line(m, p.0, p.1);
}

proof fn lemma_encode_first(pairs: Seq<(Seq<char>, Seq<char>)>)
    requires
        pairs.len() > 0,
    ensures
        encode_pairs(pairs) == line_of(pairs[0]) + encode_pairs(pairs.drop_first()),
    decreases pairs.len(),
{
    if pairs.len() == 1 {
        assert(pairs.drop_last() =~= Seq::empty());
        assert(pairs.drop_first() =~= Seq::empty());
        assert(encode_pairs(pairs.drop_last()) =~= Seq::empty());
        assert(pairs.last() == pairs[0]);
        assert(encode_pairs(pairs) =~= line_of(pairs[0]));
        assert(line_of(pairs[0]) + encode_pairs(pairs.drop_first()) =~= line_of(pairs[0]));
    } else {
        lemma_encode_first(pairs.drop_last());
        assert(pairs.drop_last().drop_first() =~= pairs.drop_first().drop_last());
        assert(pairs.drop_last()[0] == pairs[0]);
        assert(pairs.drop_first().last() == pairs.last());
        assert((line_of(pairs[0]) + encode_pairs(pairs.drop_first().drop_last())) + line_of(
            pairs.last(),
        ) =~= line_of(pairs[0]) + (encode_pairs(pairs.drop_first().drop_last()) + line_of(
            pairs.last(),
        )));
    }
}

proof fn lemma_insert_all_first(m: Map<Seq<char>, Seq<char>>, pairs: Seq<(Seq<char>, Seq<char>)>)
    requires
        pairs.len() > 0,
    ensures
        insert_all(m, pairs) == insert_all(m.insert(pairs[0].0, pairs[0].1), pairs.drop_first()),
    decreases pairs.len(),
{
    let first = m.insert(pairs[0].0, pairs[0].1);
    if pairs.len() == 1 {
        assert(pairs.drop_last() =~= Seq::empty());
        assert(pairs.drop_first() =~= Seq::empty());
        assert(insert_all(m, pairs.drop_last()) == m);
        assert(insert_all(first, pairs.drop_first()) == first);
        assert(pairs.last() == pairs[0]);
    } else {
        lemma_insert_all_first(m, pairs.drop_last());
        assert(pairs.drop_last().drop_first() =~= pairs.drop_first().drop_last());
        assert(pairs.drop_last()[0] == pairs[0]);
        assert(pairs.drop_first().last() == pairs.last());
        assert(insert_all(first, pairs.drop_first()) == insert_all(
            first,
            pairs.drop_first().drop_last(),
        ).insert(pairs.last().0, pairs.last().1));
    }
}

proof fn lemma_decode_encode_onto(m: Map<Seq<char>, Seq<char>>, pairs: Seq<(Seq<char>, Seq<char>)>)
    requires
        plain_pairs(pairs),
    ensures
        decode_scan(m, Seq::empty(), encode_pairs(pairs)) == insert_all(m, pairs),
    decreases pairs.len(),
{
    if pairs.len() > 0 {
        let tail = pairs.drop_first();
        assert forall|i: int| 0 <= i < tail.len() implies plain_key(#[trigger] tail[i].0)
            && plain_value(tail[i].1) by {
            assert(tail[i] == pairs[i + 1]);
        }
        assert(plain_key(pairs[0].0) && plain_value(pairs[0].1));
        lemma_encode_first(pairs);
        lemma_insert_all_first(m, pairs);
        lemma_decode_one_line(m, pairs[0], encode_pairs(tail));
        lemma_decode_encode_onto(m.insert(pairs[0].0, pairs[0].1), tail);
    }
}

/// Decoding undoes encoding: the text that holds a sequence of plain pairs
/// decodes to the mapping that the sequence stands for.
pub proof fn lemma_decode_encode(pairs: Seq<(Seq<char>, Seq<char>)>)
    requires
        plain_pairs(pairs),
    ensures
        decode_text(encode_pairs(pairs)) == to_map(pairs),
{
    lemma_decode_encode_onto(Map::empty(), pairs);
}

/// Decoding undoes encoding: a finite mapping of plain keys and values is
/// decoded from its text as it was.
pub proof fn lemma_codec_round_trip(m: Map<Seq<char>, Seq<char>>)
    requires
        m.dom().finite(),
        plain_map(m),
    ensures
        decode_text(encode_map(m)) == m,
{
    lemma_sorted_pairs_exist(m);
    let p = canonical_pairs(m);
    assert forall|j: int| 0 <= j < p.len() implies plain_key(#[trigger] p[j].0) && plain_value(
        p[j].1,
    ) by {
        lemma_to_map_lookup(p, j);
        assert(m.dom().contains(p[j].0));
    }
    assert(plain_pairs(p));
    lemma_decode_encode(p);
}

/// `String::from_utf8_lossy` of std: the text of `bytes`, each invalid
/// sequence replaced by U+FFFD. The result depends on the bytes alone; for
/// valid UTF-8 it is the text that the bytes encode.
#[verifier::external_body]
fn text_of_bytes(bytes: &[u8]) -> (s: String)
    ensures
        s@ == utf8_lossy(bytes@),
        vstd::utf8::valid_utf8(bytes@) ==> s@ == vstd::utf8::decode_utf8(bytes@),
{
    String::from_utf8_lossy(bytes).into_owned()
}

/// The bounds of `v[lo..hi]` without its surrounding whitespace.
fn trim_range(v: &Vec<char>, lo: usize, hi: usize) -> (r: (usize, usize))
    requires
        lo <= hi <= v@.len(),
    ensures
        lo <= r.0 <= r.1 <= hi,
        v@.subrange(r.0 as int, r.1 as int) == trim(v@.subrange(lo as int, hi as int)),
        v@.subrange(r.0 as int, hi as int) == trim_start(v@.subrange(lo as int, hi as int)),
{
    let mut a: usize = lo;
    while a < hi && is_whitespace(v[a])
        invariant
            lo <= a <= hi <= v@.len(),
            trim_start(v@.subrange(lo as int, hi as int)) == trim_start(
                v@.subrange(a as int, hi as int),
            ),
        decreases hi - a,
    {
        proof {
            assert(v@.subrange(a as int, hi as int).drop_first() =~= v@.subrange(
                a as int + 1,
                hi as int,
            ));
        }
        a += 1;
    }
    let mut b: usize = hi;
    while b > a && is_whitespace(v[b - 1])
        invariant
            a <= b <= hi <= v@.len(),
            trim_end(v@.subrange(a as int, hi as int)) == trim_end(
                v@.subrange(a as int, b as int),
            ),
        decreases b - a,
    {
        proof {
            assert(v@.subrange(a as int, b as int).drop_last() =~= v@.subrange(
                a as int,
                b as int - 1,
            ));
        }
        b -= 1;
    }
    (a, b)
}

/// The text `v[lo..hi]`.
fn string_of_range(v: &Vec<char>, lo: usize, hi: usize) -> (s: String)
    requires
        lo <= hi <= v@.len(),
    ensures
        s@ == v@.subrange(lo as int, hi as int),
{
    let mut s = String::new();
    let mut i: usize = lo;
    while i < hi
        invariant
            lo <= i <= hi <= v@.len(),
            s@ == v@.subrange(lo as int, i as int),
        decreases hi - i,
    {
        s.push(v[i]);
        proof {
            assert(v@.subrange(lo as int, i as int).push(v@[i as int]) =~= v@.subrange(
                lo as int,
                i as int + 1,
            ));
        }
        i += 1;
    }
    s
}

/// `s` without its surrounding whitespace.
pub fn trimmed(s: &str) -> (t: String)
    ensures
        t@ == trim(s@),
{
    let v = to_chars(s);
    let (a, b) = trim_range(&v, 0, v.len());
    proof {
        assert(v@.subrange(0, v@.len() as int) =~= v@);
    }
    string_of_range(&v, a, b)
}

/// Applies the line `v[lo..hi]` to the mapping.
fn put_line(map: &mut CredentialMap, v: &Vec<char>, lo: usize, hi: usize)
    requires
        lo <= hi <= v@.len(),
    ensures
        final(map)@ == apply_line(old(map)@, v@.subrange(lo as int, hi as int)),
{
    let ghost line = v@.subrange(lo as int, hi as int);
    let (a, _) = trim_range(v, lo, hi);
    if a == hi {
        return ;
    }
    assert(trim_start(line)[0] == v@[a as int]);
    if v[a] == '#' {
        return ;
    }
    let mut e: usize = lo;
    while e < hi && v[e] != '='
        invariant
            lo <= e <= hi <= v@.len(),
            forall|j: int| lo <= j < e ==> v@[j] != '=',
        decreases hi - e,
    {
        e += 1;
    }
    proof {
        assert forall|j: int| 0 <= j < e - lo implies line[j] != '=' by {
            assert(line[j] == v@[lo + j]);
        }
        lemma_find(line, '=', e - lo);
    }
    if e == hi {
        return ;
    }
    let (ka, kb) = trim_range(v, lo, e);
    let (va, vb) = trim_range(v, e + 1, hi);
    let key = string_of_range(v, ka, kb);
    let value = string_of_range(v, va, vb);
    proof {
        assert(line.take(e - lo) =~= v@.subrange(lo as int, e as int));
        assert(line.skip(e - lo + 1) =~= v@.subrange(e as int + 1, hi as int));
    }
    map.insert(key, value);
}

/// Decodes a text of `KEY=VALUE` lines. Blank lines, lines whose first
/// character after whitespace is `#` and lines without `=` are passed over;
/// of two lines with one key the later stays.
pub fn decode_env_text(text: &str) -> (m: CredentialMap)
    ensures
        m@ == decode_text(text@),
{
    let chars = to_chars(text);
    let n = chars.len();
    let mut m = CredentialMap::new();
    let mut start: usize = 0;
    assert(chars@.skip(0) =~= chars@);
    loop
        invariant_except_break
            decode_text(text@) == decode_scan(m@, Seq::empty(), chars@.skip(start as int)),
        invariant
            n == chars@.len(),
            chars@ == text@,
            start <= n,
        ensures
            m@ == decode_text(text@),
        decreases n - start,
    {
        let mut end: usize = start;
        while end < n && chars[end] != '\n'
            invariant
                n == chars@.len(),
                start <= end <= n,
                forall|j: int| start <= j < end ==> chars@[j] != '\n',
            decreases n - end,
        {
            end += 1;
        }
        proof {
            let rest = chars@.skip(start as int);
            lemma_scan_line(m@, Seq::empty(), rest, end - start);
            assert(Seq::<char>::empty() + rest.take(end - start) =~= chars@.subrange(
                start as int,
                end as int,
            ));
            assert(rest.skip(end - start) =~= chars@.skip(end as int));
            if end < n {
                assert(chars@.skip(end as int)[0] == '\n');
                assert(chars@.skip(end as int).drop_first() =~= chars@.skip(end as int + 1));
            }
        }
        put_line(&mut m, &chars, start, end);
        if end == n {
            break ;
        }
        start = end + 1;
    }
    m
}

/// Decodes the bytes of a text of `KEY=VALUE` lines, as [`decode_env_text`]
/// does with the text.
pub fn read_env_map_from_bytes(bytes: &[u8]) -> (m: CredentialMap)
    ensures
        m@ == decode_text(lossy_text(bytes@)),
{
    let s = text_of_bytes(bytes);
    decode_env_text(s.as_str())
}

/// Serialises the mapping: `key=value` and a line feed for each entry, in key
/// order. Nothing is escaped; a mapping whose keys and values are plain
/// decodes from the text as it was.
pub fn write_env_string(map: &CredentialMap) -> (out: String)
    ensures
        out@ == encode_map(map@),
        out@ == encode_pairs(map.pairs()),
        sorted_pairs(map.pairs()),
        plain_map(map@) ==> decode_text(out@) == map@,
{
    let entries = map.entries();
    let ghost pairs = map.pairs();
    let mut out = String::new();
    let mut i: usize = 0;
    assert(pairs.take(0) =~= Seq::empty());
    while i < entries.len()
        invariant
            i <= entries@.len(),
            entries@.len() == pairs.len(),
            forall|j: int|
                0 <= j < entries@.len() ==> (#[trigger] entries@[j]).0@ == pairs[j].0
                    && entries@[j].1@ == pairs[j].1,
            out@ == encode_pairs(pairs.take(i as int)),
        decreases entries@.len() - i,
    {
        let ghost before = out@;
        out.append(entries[i].0.as_str());
        out.push('=');
        out.append(entries[i].1.as_str());
        out.push('\n');
        proof {
            assert(entries@[i as int].0@ == pairs[i as int].0);
            assert(pairs.take(i as int + 1).drop_last() =~= pairs.take(i as int));
            assert(pairs.take(i as int + 1).last() == pairs[i as int]);
            assert(out@ =~= before + line_of(pairs[i as int]));
        }
        i += 1;
    }
    proof {
        assert(pairs.take(i as int) =~= pairs);
        lemma_canonical_pairs(pairs);
        if plain_map(map@) {
            assert forall|j: int| 0 <= j < pairs.len() implies plain_key(#[trigger] pairs[j].0)
                && plain_value(pairs[j].1) by {
                lemma_to_map_lookup(pairs, j);
                assert(map@.dom().contains(pairs[j].0));
                assert(map@[pairs[j].0] == pairs[j].1);
            }
            assert(plain_pairs(pairs));
            lemma_decode_encode(pairs);
        }
    }
    out
}

} // verus!
