//! Text as a sequence of characters: searching, splitting, trimming, joining.
//!
//! Every function here is stated over `Seq<char>`, the view of `str` and
//! `String`.

use vstd::prelude::*;
use vstd::std_specs::iter::IteratorSpec;
use vstd::string::*;

verus! {

/// The characters that separate words: those with the Unicode property
/// White_Space.
pub open spec fn is_space(c: char) -> bool {
    let n = c as u32;
    (0x09 <= n <= 0x0d) || n == 0x20 || n == 0x85 || n == 0xa0 || n == 0x1680 || (0x2000 <= n
        <= 0x200a) || n == 0x2028 || n == 0x2029 || n == 0x202f || n == 0x205f || n == 0x3000
}

/// Whether `c` separates words.
pub fn is_space_char(c: char) -> (r: bool)
    ensures
        r == is_space(c),
{
    let n: u32 = c as u32;
    (0x09 <= n && n <= 0x0d) || n == 0x20 || n == 0x85 || n == 0xa0 || n == 0x1680 || (0x2000 <= n
        && n <= 0x200a) || n == 0x2028 || n == 0x2029 || n == 0x202f || n == 0x205f || n == 0x3000
}

/// What a list of strings holds.
pub open spec fn texts(v: Seq<String>) -> Seq<Seq<char>> {
    v.map_values(|s: String| s@)
}

/// `p` stands in `s` at position `i`.
pub open spec fn occurs_at(s: Seq<char>, p: Seq<char>, i: int) -> bool {
    0 <= i && i + p.len() <= s.len() && s.subrange(i, i + p.len()) == p
}

/// `p` stands somewhere in `s`.
pub open spec fn has_infix(s: Seq<char>, p: Seq<char>) -> bool {
    exists|i: int| occurs_at(s, p, i)
}

/// `s` begins with `p`.
pub open spec fn has_prefix(s: Seq<char>, p: Seq<char>) -> bool {
    occurs_at(s, p, 0)
}

/// `s` ends with `p`.
pub open spec fn has_suffix(s: Seq<char>, p: Seq<char>) -> bool {
    occurs_at(s, p, s.len() - p.len())
}

/// The words of `s` from position `i` on, where `cur` is the word begun
/// before `i` (empty if none is).
pub open spec fn words_acc(s: Seq<char>, i: int, cur: Seq<char>) -> Seq<Seq<char>>
    decreases s.len() - i,
{
    let flushed = if cur.len() > 0 {
        seq![cur]
    } else {
        Seq::<Seq<char>>::empty()
    };
    if i < 0 || i >= s.len() {
        flushed
    } else if is_space(s[i]) {
        flushed + words_acc(s, i + 1, Seq::<char>::empty())
    } else {
        words_acc(s, i + 1, cur.push(s[i]))
    }
}

/// The words of `s`: its maximal runs of characters that are no spaces, in
/// order.
pub open spec fn words(s: Seq<char>) -> Seq<Seq<char>> {
    words_acc(s, 0, Seq::<char>::empty())
}

/// The first word of `s`, or the empty text if it has none.
pub open spec fn first_word(s: Seq<char>) -> Seq<char> {
    if words(s).len() > 0 {
        words(s)[0]
    } else {
        Seq::<char>::empty()
    }
}

/// The items `from..to` of `ws`, a single blank between neighbours.
pub open spec fn join_range(ws: Seq<Seq<char>>, from: int, to: int) -> Seq<char>
    decreases to - from,
{
    if to <= from {
        Seq::<char>::empty()
    } else if to == from + 1 {
        ws[from]
    } else {
        join_range(ws, from, to - 1) + seq![' '] + ws[to - 1]
    }
}

/// All of `ws`, a single blank between neighbours.
pub open spec fn joined(ws: Seq<Seq<char>>) -> Seq<char> {
    join_range(ws, 0, ws.len() as int)
}

/// What trimming takes away: back-ticks where `ticks` is set, spaces
/// otherwise.
pub open spec fn strippable(c: char, ticks: bool) -> bool {
    if ticks {
        c == '`'
    } else {
        is_space(c)
    }
}

/// The first position at or after `i` that trimming leaves, or the length.
pub open spec fn lead_end(s: Seq<char>, i: int, ticks: bool) -> int
    decreases s.len() - i,
{
    if i < 0 || i >= s.len() || !strippable(s[i], ticks) {
        i
    } else {
        lead_end(s, i + 1, ticks)
    }
}

/// The end of the last character before `j` that trimming leaves, or 0.
pub open spec fn tail_start(s: Seq<char>, j: int, ticks: bool) -> int
    decreases j,
{
    if j <= 0 || j > s.len() || !strippable(s[j - 1], ticks) {
        j
    } else {
        tail_start(s, j - 1, ticks)
    }
}

/// `s` without the strippable characters at its two ends.
pub open spec fn stripped(s: Seq<char>, ticks: bool) -> Seq<char> {
    let a = lead_end(s, 0, ticks);
    let b = tail_start(s, s.len() as int, ticks);
    if a < b {
        s.subrange(a, b)
    } else {
        Seq::<char>::empty()
    }
}

/// `s` without the spaces at its two ends.
pub open spec fn trimmed(s: Seq<char>) -> Seq<char> {
    stripped(s, false)
}

/// `s` without the back-ticks at its two ends.
pub open spec fn unticked(s: Seq<char>) -> Seq<char> {
    stripped(s, true)
}

/// A line without the carriage return that stood before its line feed.
pub open spec fn without_cr(line: Seq<char>) -> Seq<char> {
    if line.len() > 0 && line.last() == '\r' {
        line.drop_last()
    } else {
        line
    }
}

/// The lines of `s` from position `i` on, where `cur` is what the current
/// line holds so far.
pub open spec fn lines_acc(s: Seq<char>, i: int, cur: Seq<char>) -> Seq<Seq<char>>
    decreases s.len() - i,
{
    if i < 0 || i >= s.len() {
        if cur.len() > 0 {
            seq![cur]
        } else {
            Seq::<Seq<char>>::empty()
        }
    } else if s[i] == '\n' {
        seq![without_cr(cur)] + lines_acc(s, i + 1, Seq::<char>::empty())
    } else {
        lines_acc(s, i + 1, cur.push(s[i]))
    }
}

/// The lines of `s`. A line ends at a line feed, which is dropped together
/// with a carriage return just before it; text after the last line feed is a
/// line if it is not empty.
pub open spec fn lines(s: Seq<char>) -> Seq<Seq<char>> {
    lines_acc(s, 0, Seq::<char>::empty())
}

/// A word: not empty, and without a space in it.
pub open spec fn is_word(w: Seq<char>) -> bool {
    w.len() > 0 && forall|j: int| 0 <= j < w.len() ==> !is_space(#[trigger] w[j])
}

proof fn lemma_words_acc(s: Seq<char>, i: int, cur: Seq<char>)
    requires
        0 <= i <= s.len(),
        forall|j: int| 0 <= j < cur.len() ==> !is_space(#[trigger] cur[j]),
    ensures
        forall|k: int|
            0 <= k < words_acc(s, i, cur).len() ==> is_word(#[trigger] words_acc(s, i, cur)[k]),
    decreases s.len() - i,
{
    let out = words_acc(s, i, cur);
    if i < s.len() {
        if is_space(s[i]) {
            let rest = words_acc(s, i + 1, Seq::<char>::empty());
            lemma_words_acc(s, i + 1, Seq::<char>::empty());
            assert forall|k: int| 0 <= k < out.len() implies is_word(#[trigger] out[k]) by {
                if cur.len() > 0 {
                    if k == 0 {
                        assert(out[k] == cur);
                    } else {
                        assert(out[k] == rest[k - 1]);
                    }
                } else {
                    assert(out[k] == rest[k]);
                }
            }
        } else {
            let next = cur.push(s[i]);
            assert forall|j: int| 0 <= j < next.len() implies !is_space(#[trigger] next[j]) by {
                if j < cur.len() {
                    assert(next[j] == cur[j]);
                }
            }
            lemma_words_acc(s, i + 1, next);
            assert(out == words_acc(s, i + 1, next));
            assert forall|k: int| 0 <= k < out.len() implies is_word(#[trigger] out[k]) by {
                assert(is_word(words_acc(s, i + 1, next)[k]));
            }
        }
    } else {
        assert forall|k: int| 0 <= k < out.len() implies is_word(#[trigger] out[k]) by {
            assert(out[k] == cur);
        }
    }
}

/// Every word of a text is a word: none is empty, none holds a space.
pub proof fn law_words_are_words(s: Seq<char>)
    ensures
        forall|k: int| 0 <= k < words(s).len() ==> is_word(#[trigger] words(s)[k]),
{
    lemma_words_acc(s, 0, Seq::<char>::empty());
}

proof fn lemma_lines_acc(s: Seq<char>, i: int, cur: Seq<char>)
    requires
        0 <= i <= s.len(),
        !cur.contains('\n'),
    ensures
        forall|k: int|
            0 <= k < lines_acc(s, i, cur).len() ==> !(#[trigger] lines_acc(s, i, cur)[k]).contains(
                '\n',
            ),
    decreases s.len() - i,
{
    let out = lines_acc(s, i, cur);
    if i < s.len() {
        if s[i] == '\n' {
            let rest = lines_acc(s, i + 1, Seq::<char>::empty());
            lemma_lines_acc(s, i + 1, Seq::<char>::empty());
            let line = without_cr(cur);
            assert(!line.contains('\n')) by {
                if line.contains('\n') {
                    let j = choose|j: int| 0 <= j < line.len() && line[j] == '\n';
                    assert(cur[j] == '\n');
                }
            }
            assert forall|k: int| 0 <= k < out.len() implies !(#[trigger] out[k]).contains(
                '\n',
            ) by {
                if k == 0 {
                    assert(out[k] == line);
                } else {
                    assert(out[k] == rest[k - 1]);
                }
            }
        } else {
            let next = cur.push(s[i]);
            assert(!next.contains('\n')) by {
                if next.contains('\n') {
                    let j = choose|j: int| 0 <= j < next.len() && next[j] == '\n';
                    if j < cur.len() {
                        assert(cur[j] == '\n');
                    }
                }
            }
            lemma_lines_acc(s, i + 1, next);
            assert(out == lines_acc(s, i + 1, next));
            assert forall|k: int| 0 <= k < out.len() implies !(#[trigger] out[k]).contains(
                '\n',
            ) by {
                assert(!lines_acc(s, i + 1, next)[k].contains('\n'));
            }
        }
    } else {
        assert forall|k: int| 0 <= k < out.len() implies !(#[trigger] out[k]).contains('\n') by {
            assert(out[k] == cur);
        }
    }
}

/// No line of a text holds a line feed.
pub proof fn law_lines_hold_no_line_feed(s: Seq<char>)
    ensures
        forall|k: int| 0 <= k < lines(s).len() ==> !(#[trigger] lines(s)[k]).contains('\n'),
{
    lemma_lines_acc(s, 0, Seq::<char>::empty());
}

proof fn lemma_lead_end(s: Seq<char>, i: int, ticks: bool)
    requires
        0 <= i <= s.len(),
    ensures
        i <= lead_end(s, i, ticks) <= s.len(),
        lead_end(s, i, ticks) < s.len() ==> !strippable(s[lead_end(s, i, ticks)], ticks),
    decreases s.len() - i,
{
    if i < s.len() && strippable(s[i], ticks) {
        lemma_lead_end(s, i + 1, ticks);
    }
}

proof fn lemma_tail_start(s: Seq<char>, j: int, ticks: bool)
    requires
        0 <= j <= s.len(),
    ensures
        0 <= tail_start(s, j, ticks) <= j,
        tail_start(s, j, ticks) > 0 ==> !strippable(s[tail_start(s, j, ticks) - 1], ticks),
    decreases j,
{
    if j > 0 && strippable(s[j - 1], ticks) {
        lemma_tail_start(s, j - 1, ticks);
    }
}

/// What stripping leaves is a piece of the text that neither begins nor ends
/// with a strippable character.
pub proof fn law_stripped_is_bare(s: Seq<char>, ticks: bool)
    ensures
        has_infix(s, stripped(s, ticks)),
        stripped(s, ticks).len() > 0 ==> !strippable(stripped(s, ticks).first(), ticks)
            && !strippable(stripped(s, ticks).last(), ticks),
{
    lemma_lead_end(s, 0, ticks);
    lemma_tail_start(s, s.len() as int, ticks);
    let a = lead_end(s, 0, ticks);
    let b = tail_start(s, s.len() as int, ticks);
    if a < b {
        assert(occurs_at(s, stripped(s, ticks), a));
    } else {
        assert(s.subrange(0, 0) =~= stripped(s, ticks));
        assert(occurs_at(s, stripped(s, ticks), 0));
    }
}

/// The characters of `s`, for indexing.
pub fn chars_of(s: &str) -> (v: Vec<char>)
    ensures
        v@ == s@,
{
    broadcast use {vstd::string::axiom_spec_iter, vstd::string::next_postcondition};

    let n: usize = s.unicode_len();
    let mut v: Vec<char> = Vec::new();
    let mut it = s.chars();
    let mut i: usize = 0;
    assert(v@ + it.remaining() =~= s@);
    while i < n
        invariant
            n == s@.len(),
            i <= n,
            v@.len() == i,
            v@ + it.remaining() == s@,
        decreases n - i,
    {
        let ghost rest = it.remaining();
        let ghost before = v@;
        assert(rest.len() > 0);
        match it.next() {
            Some(c) => {
                v.push(c);
                assert(v@ + it.remaining() =~= before + rest);
            },
            None => {},
        }
        i += 1;
    }
    assert(v@ =~= v@ + it.remaining());
    v
}

fn match_at(s: &Vec<char>, p: &Vec<char>, i: usize) -> (r: bool)
    ensures
        r == occurs_at(s@, p@, i as int),
{
    if p.len() > s.len() || i > s.len() - p.len() {
        return false;
    }
    let mut j: usize = 0;
    while j < p.len()
        invariant
            i + p.len() <= s.len(),
            j <= p.len(),
            forall|k: int| 0 <= k < j ==> s@[i + k] == p@[k],
        decreases p.len() - j,
    {
        if s[i + j] != p[j] {
            assert(s@.subrange(i as int, i + p.len())[j as int] != p@[j as int]);
            return false;
        }
        j += 1;
    }
    assert(s@.subrange(i as int, i + p.len()) =~= p@);
    true
}

/// Whether two texts are the same.
pub fn same_text(a: &str, b: &str) -> (r: bool)
    ensures
        r == (a@ == b@),
{
    let av: Vec<char> = chars_of(a);
    let bv: Vec<char> = chars_of(b);
    if av.len() != bv.len() {
        return false;
    }
    let r: bool = match_at(&av, &bv, 0);
    assert(av@.subrange(0, av@.len() as int) =~= av@);
    r
}

/// Whether `s` begins with `p`.
pub fn starts_with(s: &str, p: &str) -> (r: bool)
    ensures
        r == has_prefix(s@, p@),
{
    let sv: Vec<char> = chars_of(s);
    let pv: Vec<char> = chars_of(p);
    match_at(&sv, &pv, 0)
}

/// Whether `s` ends with `p`.
pub fn ends_with(s: &str, p: &str) -> (r: bool)
    ensures
        r == has_suffix(s@, p@),
{
    let sv: Vec<char> = chars_of(s);
    let pv: Vec<char> = chars_of(p);
    if pv.len() > sv.len() {
        return false;
    }
    match_at(&sv, &pv, sv.len() - pv.len())
}

/// Whether `p` stands somewhere in `s`.
pub fn contains(s: &str, p: &str) -> (r: bool)
    ensures
        r == has_infix(s@, p@),
{
    let sv: Vec<char> = chars_of(s);
    let pv: Vec<char> = chars_of(p);
    if pv.len() > sv.len() {
        return false;
    }
    let last: usize = sv.len() - pv.len();
    let mut i: usize = 0;
    while i < last
        invariant
            sv@ == s@,
            pv@ == p@,
            last == sv@.len() - pv@.len(),
            i <= last,
            forall|k: int| 0 <= k < i ==> !occurs_at(sv@, pv@, k),
        decreases last - i,
    {
        if match_at(&sv, &pv, i) {
            return true;
        }
        i += 1;
    }
    match_at(&sv, &pv, last)
}

/// Whether `s` is one of `list`.
pub fn list_has(list: &Vec<String>, s: &str) -> (r: bool)
    ensures
        r == texts(list@).contains(s@),
{
    let mut i: usize = 0;
    while i < list.len()
        invariant
            i <= list.len(),
            forall|k: int| 0 <= k < i ==> texts(list@)[k] != s@,
        decreases list.len() - i,
    {
        if same_text(list[i].as_str(), s) {
            assert(texts(list@)[i as int] == s@);
            return true;
        }
        i += 1;
    }
    false
}

/// The words of `s`.
pub fn split_words(s: &str) -> (out: Vec<String>)
    ensures
        texts(out@) == words(s@),
{
    let sv: Vec<char> = chars_of(s);
    let n: usize = sv.len();
    let mut out: Vec<String> = Vec::new();
    let mut start: usize = 0;
    let mut i: usize = 0;
    assert(s@.subrange(0, 0) =~= Seq::<char>::empty());
    assert(texts(out@) =~= Seq::<Seq<char>>::empty());
    while i < n
        invariant
            sv@ == s@,
            n == sv@.len(),
            start <= i <= n,
            texts(out@) + words_acc(s@, i as int, s@.subrange(start as int, i as int)) == words(
                s@,
            ),
        decreases n - i,
    {
        let ghost before = texts(out@);
        let ghost cur = s@.subrange(start as int, i as int);
        if is_space_char(sv[i]) {
            if start < i {
                let word: String = String::from_str(s.substring_char(start, i));
                out.push(word);
                assert(texts(out@) =~= before + seq![cur]);
            }
            start = i + 1;
            assert(s@.subrange(start as int, start as int) =~= Seq::<char>::empty());
            assert(texts(out@) + words_acc(s@, i + 1, Seq::<char>::empty()) =~= before
                + words_acc(s@, i as int, cur));
        } else {
            assert(cur.push(s@[i as int]) =~= s@.subrange(start as int, i + 1));
        }
        i += 1;
    }
    if start < n {
        let ghost before = texts(out@);
        let word: String = String::from_str(s.substring_char(start, n));
        out.push(word);
        assert(texts(out@) =~= before + seq![s@.subrange(start as int, n as int)]);
    } else {
        assert(texts(out@) + Seq::<Seq<char>>::empty() =~= texts(out@));
    }
    out
}

/// The items of `ws` from `from` on, a single blank between neighbours.
pub fn join_from(ws: &Vec<String>, from: usize) -> (r: String)
    ensures
        r@ == join_range(texts(ws@), from as int, ws@.len() as int),
{
    let mut r: String = String::new();
    if from >= ws.len() {
        return r;
    }
    let mut k: usize = from;
    while k < ws.len()
        invariant
            from <= k <= ws.len(),
            r@ == join_range(texts(ws@), from as int, k as int),
        decreases ws.len() - k,
    {
        if k > from {
            r.append(" ");
            proof {
                reveal_strlit(" ");
                assert(" "@ =~= seq![' ']);
            }
        }
        r.append(ws[k].as_str());
        assert(texts(ws@)[k as int] == ws@[k as int]@);
        assert(r@ =~= join_range(texts(ws@), from as int, k + 1));
        k += 1;
    }
    r
}

/// `a`, a blank, and `b`.
pub fn spaced(a: &str, b: &str) -> (r: String)
    ensures
        r@ == a@ + seq![' '] + b@,
{
    proof {
        reveal_strlit(" ");
        assert(" "@ =~= seq![' ']);
    }
    String::from_str(a).concat(" ").concat(b)
}

fn is_strippable(c: char, ticks: bool) -> (r: bool)
    ensures
        r == strippable(c, ticks),
{
    if ticks {
        c == '`'
    } else {
        is_space_char(c)
    }
}

/// `s` without the strippable characters at its two ends.
pub fn strip<'a>(s: &'a str, ticks: bool) -> (r: &'a str)
    ensures
        r@ == stripped(s@, ticks),
{
    let sv: Vec<char> = chars_of(s);
    let n: usize = sv.len();
    let mut a: usize = 0;
    while a < n && is_strippable(sv[a], ticks)
        invariant
            sv@ == s@,
            n == sv@.len(),
            a <= n,
            lead_end(s@, a as int, ticks) == lead_end(s@, 0, ticks),
        decreases n - a,
    {
        a += 1;
    }
    let mut b: usize = n;
    while b > 0 && is_strippable(sv[b - 1], ticks)
        invariant
            sv@ == s@,
            n == sv@.len(),
            b <= n,
            tail_start(s@, b as int, ticks) == tail_start(s@, n as int, ticks),
        decreases b,
    {
        b -= 1;
    }
    if a < b {
        s.substring_char(a, b)
    } else {
        let r: &str = s.substring_char(0, 0);
        assert(r@ =~= Seq::<char>::empty());
        r
    }
}

/// The lines of `s`.
pub fn split_lines(s: &str) -> (out: Vec<String>)
    ensures
        texts(out@) == lines(s@),
{
    let sv: Vec<char> = chars_of(s);
    let n: usize = sv.len();
    let mut out: Vec<String> = Vec::new();
    let mut start: usize = 0;
    let mut i: usize = 0;
    assert(s@.subrange(0, 0) =~= Seq::<char>::empty());
    assert(texts(out@) =~= Seq::<Seq<char>>::empty());
    while i < n
        invariant
            sv@ == s@,
            n == sv@.len(),
            start <= i <= n,
            texts(out@) + lines_acc(s@, i as int, s@.subrange(start as int, i as int)) == lines(
                s@,
            ),
        decreases n - i,
    {
        let ghost before = texts(out@);
        let ghost cur = s@.subrange(start as int, i as int);
        if sv[i] == '\n' {
            let end: usize = if start < i && sv[i - 1] == '\r' {
                i - 1
            } else {
                i
            };
            assert(s@.subrange(start as int, end as int) =~= without_cr(cur));
            let line: String = String::from_str(s.substring_char(start, end));
            out.push(line);
            assert(texts(out@) =~= before + seq![without_cr(cur)]);
            start = i + 1;
            assert(s@.subrange(start as int, start as int) =~= Seq::<char>::empty());
            assert(texts(out@) + lines_acc(s@, i + 1, Seq::<char>::empty()) =~= before
                + lines_acc(s@, i as int, cur));
        } else {
            assert(cur.push(s@[i as int]) =~= s@.subrange(start as int, i + 1));
        }
        i += 1;
    }
    if start < n {
        let ghost before = texts(out@);
        let line: String = String::from_str(s.substring_char(start, n));
        out.push(line);
        assert(texts(out@) =~= before + seq![s@.subrange(start as int, n as int)]);
    } else {
        assert(texts(out@) + Seq::<Seq<char>>::empty() =~= texts(out@));
    }
    out
}

/// The lower-case form of a text, as the standard library maps it.
pub uninterp spec fn lowered(s: Seq<char>) -> Seq<char>;

/// Calls `str::to_lowercase`. The result is a function of the text alone; its
/// Unicode mapping is not written out here, so it carries the name `lowered`.
#[verifier::external_body]
pub(crate) fn to_lower(s: &str) -> (r: String)
    ensures
        r@ == lowered(s@),
{
    s.to_lowercase()
}

} // verus!
