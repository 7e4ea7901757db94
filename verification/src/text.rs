//! Character-level text handling: the line, whitespace and field splitting
//! that the command-output parsers are built on, each stated over `Seq<char>`.
use vstd::prelude::*;

verus! {

// ---------------------------------------------------------------------------
// Characters
// ---------------------------------------------------------------------------

/// The Unicode `White_Space` characters, the class that `char::is_whitespace`
/// (and so `str::trim` and `str::split_whitespace`) uses.
pub open spec fn is_ws(c: char) -> bool {
    let u = c as u32;
    ||| 0x9 <= u <= 0xd
    ||| u == 0x20
    ||| u == 0x85
    ||| u == 0xa0
    ||| u == 0x1680
    ||| 0x2000 <= u <= 0x200a
    ||| u == 0x2028
    ||| u == 0x2029
    ||| u == 0x202f
    ||| u == 0x205f
    ||| u == 0x3000
}

pub fn char_is_ws(c: char) -> (r: bool)
    ensures
        r == is_ws(c),
{
    let u = c as u32;
    (0x9 <= u && u <= 0xd) || u == 0x20 || u == 0x85 || u == 0xa0 || u == 0x1680 || (0x2000 <= u
        && u <= 0x200a) || u == 0x2028 || u == 0x2029 || u == 0x202f || u == 0x205f || u == 0x3000
}

// ---------------------------------------------------------------------------
// Conversions between `str`/`String` and `Vec<char>`
// ---------------------------------------------------------------------------

/// The characters of `s`, in order.
pub fn chars_of(s: &str) -> (v: Vec<char>)
    ensures
        v@ == s@,
{
    let mut v: Vec<char> = Vec::new();
    for c in it: s.chars()
        invariant
            v@ == it.seq().take(it.index() as int),
            it.seq() == s@,
    {
        v.push(c);
    }
    v
}

/// Builds a `String` holding exactly the characters of `v`
/// (`String::from_iter` over `char`s).
#[verifier::external_body]
pub(crate) fn string_from_chars(v: Vec<char>) -> (s: String)
    ensures
        s@ == v@,
{
    String::from_iter(v)
}

/// An owned copy of a text.
pub fn owned(s: &str) -> (r: String)
    ensures
        r@ == s@,
{
    string_from_chars(chars_of(s))
}

/// A fresh vector holding `v[from..to]`.
pub fn sub_chars(v: &Vec<char>, from: usize, to: usize) -> (r: Vec<char>)
    requires
        from <= to <= v.len(),
    ensures
        r@ == v@.subrange(from as int, to as int),
{
    let mut r: Vec<char> = Vec::new();
    let mut i = from;
    while i < to
        invariant
            from <= i <= to <= v.len(),
            r@ == v@.subrange(from as int, i as int),
        decreases to - i,
    {
        r.push(v[i]);
        i = i + 1;
    }
    r
}

/// Appends the characters of `s` to `out`.
pub fn push_str(out: &mut Vec<char>, s: &str)
    ensures
        final(out)@ == old(out)@ + s@,
{
    let cs = chars_of(s);
    push_chars(out, &cs);
}

/// Appends the characters of `s` to `out`.
pub fn push_chars(out: &mut Vec<char>, s: &Vec<char>)
    ensures
        final(out)@ == old(out)@ + s@,
{
    let ghost start = out@;
    let mut i: usize = 0;
    while i < s.len()
        invariant
            i <= s.len(),
            out@ == start + s@.subrange(0, i as int),
        decreases s.len() - i,
    {
        out.push(s[i]);
        i = i + 1;
    }
    assert(s@.subrange(0, s.len() as int) =~= s@);
}

/// Whether two character vectors hold the same text.
pub fn chars_eq(a: &Vec<char>, b: &Vec<char>) -> (r: bool)
    ensures
        r == (a@ == b@),
{
    if a.len() != b.len() {
        return false;
    }
    let mut i: usize = 0;
    while i < a.len()
        invariant
            a.len() == b.len(),
            i <= a.len(),
            forall|k: int| 0 <= k < i ==> a@[k] == b@[k],
        decreases a.len() - i,
    {
        if a[i] != b[i] {
            return false;
        }
        i = i + 1;
    }
    assert(a@ =~= b@);
    true
}

// ---------------------------------------------------------------------------
// Prefixes and substrings
// ---------------------------------------------------------------------------

pub open spec fn starts_with(s: Seq<char>, p: Seq<char>) -> bool {
    p.len() <= s.len() && s.subrange(0, p.len() as int) == p
}

pub open spec fn occurs_at(s: Seq<char>, p: Seq<char>, i: int) -> bool {
    0 <= i && i + p.len() <= s.len() && s.subrange(i, i + p.len()) == p
}

pub open spec fn contains_text(s: Seq<char>, p: Seq<char>) -> bool {
    exists|i: int| occurs_at(s, p, i)
}

pub fn has_prefix(s: &Vec<char>, p: &str) -> (r: bool)
    ensures
        r == starts_with(s@, p@),
{
    let pc = chars_of(p);
    has_prefix_chars(s, &pc)
}

pub fn has_prefix_chars(s: &Vec<char>, p: &Vec<char>) -> (r: bool)
    ensures
        r == starts_with(s@, p@),
{
    if p.len() > s.len() {
        return false;
    }
    let mut i: usize = 0;
    while i < p.len()
        invariant
            p.len() <= s.len(),
            i <= p.len(),
            forall|k: int| 0 <= k < i ==> s@[k] == p@[k],
        decreases p.len() - i,
    {
        if s[i] != p[i] {
            assert(s@.subrange(0, p.len() as int)[i as int] != p@[i as int]);
            return false;
        }
        i = i + 1;
    }
    assert(s@.subrange(0, p.len() as int) =~= p@);
    true
}

fn occurs_at_exec(s: &Vec<char>, p: &Vec<char>, at: usize) -> (r: bool)
    requires
        at + p.len() <= s.len(),
    ensures
        r == occurs_at(s@, p@, at as int),
{
    let mut i: usize = 0;
    while i < p.len()
        invariant
            at + p.len() <= s.len(),
            i <= p.len(),
            forall|k: int| 0 <= k < i ==> s@[at + k] == p@[k],
        decreases p.len() - i,
    {
        if s[at + i] != p[i] {
            assert(s@.subrange(at as int, at + p.len())[i as int] != p@[i as int]);
            return false;
        }
        i = i + 1;
    }
    assert(s@.subrange(at as int, at + p.len()) =~= p@);
    true
}

pub fn has_substring(s: &Vec<char>, p: &str) -> (r: bool)
    ensures
        r == contains_text(s@, p@),
{
    let pc = chars_of(p);
    if pc.len() > s.len() {
        return false;
    }
    let last = s.len() - pc.len();
    let mut at: usize = 0;
    loop
        invariant
            last + pc.len() == s.len(),
            pc@ == p@,
            at <= last,
            forall|k: int| 0 <= k < at ==> !occurs_at(s@, p@, k),
        ensures
            forall|k: int| 0 <= k <= last ==> !occurs_at(s@, p@, k),
        decreases last - at,
    {
        if occurs_at_exec(s, &pc, at) {
            return true;
        }
        if at == last {
            break;
        }
        at = at + 1;
    }
    assert(!contains_text(s@, p@)) by {
        if exists|i: int| occurs_at(s@, p@, i) {
            let i = choose|i: int| occurs_at(s@, p@, i);
            assert(i <= last);
        }
    }
    false
}


// ---------------------------------------------------------------------------
// Trimming
// ---------------------------------------------------------------------------

/// `s` without its leading whitespace.
pub open spec fn trim_start(s: Seq<char>) -> Seq<char>
    decreases s.len(),
{
    if s.len() > 0 && is_ws(s[0]) {
        trim_start(s.drop_first())
    } else {
        s
    }
}

/// `s` without its trailing whitespace.
pub open spec fn trim_end(s: Seq<char>) -> Seq<char>
    decreases s.len(),
{
    if s.len() > 0 && is_ws(s.last()) {
        trim_end(s.drop_last())
    } else {
        s
    }
}

/// `str::trim`: `s` without leading and trailing whitespace.
pub open spec fn trim(s: Seq<char>) -> Seq<char> {
    trim_end(trim_start(s))
}

pub fn trim_chars(s: &Vec<char>) -> (r: Vec<char>)
    ensures
        r@ == trim(s@),
{
    let n = s.len();
    let mut i: usize = 0;
    assert(s@.subrange(0, n as int) =~= s@);
    while i < n && char_is_ws(s[i])
        invariant
            n == s.len(),
            i <= n,
            trim_start(s@) == trim_start(s@.subrange(i as int, n as int)),
        decreases n - i,
    {
        assert(s@.subrange(i as int, n as int).drop_first() =~= s@.subrange(i + 1, n as int));
        i = i + 1;
    }
    let mut j: usize = n;
    while j > i && char_is_ws(s[j - 1])
        invariant
            n == s.len(),
            i <= j <= n,
            trim_start(s@) == s@.subrange(i as int, n as int),
            trim(s@) == trim_end(s@.subrange(i as int, j as int)),
        decreases j - i,
    {
        assert(s@.subrange(i as int, j as int).drop_last() =~= s@.subrange(i as int, j - 1));
        j = j - 1;
    }
    sub_chars(s, i, j)
}

// ---------------------------------------------------------------------------
// Splitting into fields
// ---------------------------------------------------------------------------

/// Whether `x` separates fields: any whitespace character when `ws`, else exactly `c`.
pub open spec fn sep_hit(ws: bool, c: char, x: char) -> bool {
    if ws {
        is_ws(x)
    } else {
        x == c
    }
}

/// `str::split` on a separator class: the (possibly empty) pieces between
/// separators; there is always one more piece than there are separators.
pub open spec fn split_fields(s: Seq<char>, ws: bool, c: char) -> Seq<Seq<char>>
    decreases s.len(),
{
    if s.len() == 0 {
        seq![Seq::<char>::empty()]
    } else {
        let r = split_fields(s.drop_last(), ws, c);
        if sep_hit(ws, c, s.last()) {
            r.push(Seq::<char>::empty())
        } else {
            r.update(r.len() - 1, r.last().push(s.last()))
        }
    }
}

/// `str::split(c)` for a single character `c`.
pub open spec fn split_on(s: Seq<char>, c: char) -> Seq<Seq<char>> {
    split_fields(s, false, c)
}

/// Keeps the non-empty pieces.
pub open spec fn nonempty_text() -> spec_fn(Seq<char>) -> bool {
    |p: Seq<char>| p.len() > 0
}

/// `str::split_whitespace`: the non-empty pieces between whitespace characters.
pub open spec fn words(s: Seq<char>) -> Seq<Seq<char>> {
    split_fields(s, true, ' ').filter(nonempty_text())
}

/// The texts held by a sequence of character vectors.
pub open spec fn texts(v: Seq<Vec<char>>) -> Seq<Seq<char>> {
    v.map_values(|x: Vec<char>| x@)
}

pub proof fn lemma_split_fields_nonempty(s: Seq<char>, ws: bool, c: char)
    ensures
        split_fields(s, ws, c).len() >= 1,
    decreases s.len(),
{
    if s.len() > 0 {
        lemma_split_fields_nonempty(s.drop_last(), ws, c);
    }
}

proof fn lemma_texts_push(v: Seq<Vec<char>>, x: Vec<char>)
    ensures
        texts(v.push(x)) == texts(v).push(x@),
{
    assert(texts(v.push(x)) =~= texts(v).push(x@));
}

fn split_fields_exec(s: &Vec<char>, ws: bool, c: char) -> (r: Vec<Vec<char>>)
    ensures
        texts(r@) == split_fields(s@, ws, c),
{
    let n = s.len();
    let mut done: Vec<Vec<char>> = Vec::new();
    let mut cur: Vec<char> = Vec::new();
    let mut i: usize = 0;
    while i < n
        invariant
            n == s.len(),
            i <= n,
            texts(done@).push(cur@) == split_fields(s@.take(i as int), ws, c),
        decreases n - i,
    {
        let ghost prev = s@.take(i as int);
        proof {
            assert(s@.take(i + 1).drop_last() =~= prev);
            lemma_split_fields_nonempty(prev, ws, c);
        }
        let x = s[i];
        let hit = if ws {
            char_is_ws(x)
        } else {
            x == c
        };
        if hit {
            let ghost old_done = done@;
            let ghost old_cur = cur@;
            done.push(cur);
            cur = Vec::new();
            proof {
                lemma_texts_push(old_done, done@.last());
                assert(texts(done@).push(cur@) =~= texts(old_done).push(old_cur).push(
                    Seq::<char>::empty(),
                ));
            }
        } else {
            let ghost old_cur = cur@;
            cur.push(x);
            assert(texts(done@).push(cur@) =~= texts(done@).push(old_cur).update(
                texts(done@).len() as int,
                old_cur.push(x),
            ));
        }
        i = i + 1;
    }
    assert(s@.take(n as int) =~= s@);
    let ghost old_done = done@;
    done.push(cur);
    proof {
        lemma_texts_push(old_done, done@.last());
    }
    done
}

/// `str::split(c)`.
pub fn split_on_char(s: &Vec<char>, c: char) -> (r: Vec<Vec<char>>)
    ensures
        texts(r@) == split_on(s@, c),
{
    split_fields_exec(s, false, c)
}

/// `str::split_whitespace`.
pub fn split_words(s: &Vec<char>) -> (r: Vec<Vec<char>>)
    ensures
        texts(r@) == words(s@),
{
    let parts = split_fields_exec(s, true, ' ');
    let ghost all = texts(parts@);
    let mut out: Vec<Vec<char>> = Vec::new();
    let mut i: usize = 0;
    while i < parts.len()
        invariant
            i <= parts.len(),
            all == texts(parts@),
            all.len() == parts.len(),
            texts(out@) == all.take(i as int).filter(nonempty_text()),
        decreases parts.len() - i,
    {
        proof {
            assert(all.take(i + 1) =~= all.take(i as int).push(all[i as int]));
            all.take(i as int).lemma_filter_push(all[i as int], nonempty_text());
        }
        if parts[i].len() > 0 {
            let ghost old_out = out@;
            let p = sub_chars(&parts[i], 0, parts[i].len());
            assert(p@ =~= parts@[i as int]@);
            out.push(p);
            proof {
                lemma_texts_push(old_out, p);
            }
        }
        i = i + 1;
    }
    assert(all.take(parts.len() as int) =~= all);
    out
}

// ---------------------------------------------------------------------------
// Lines
// ---------------------------------------------------------------------------

/// A line's text without one trailing carriage return.
pub open spec fn strip_cr(l: Seq<char>) -> Seq<char> {
    if l.len() > 0 && l.last() == '\r' {
        l.drop_last()
    } else {
        l
    }
}

/// `strip_cr` as a function value.
pub open spec fn strip_cr_fn() -> spec_fn(Seq<char>) -> Seq<char> {
    |l: Seq<char>| strip_cr(l)
}

/// `str::lines`: the pieces between `'\n'`, each without a `'\r'` just before
/// its `'\n'`; a final empty piece (text ending in a newline, or empty text)
/// is no line, and the last line keeps a trailing `'\r'` that no `'\n'` follows.
pub open spec fn lines(s: Seq<char>) -> Seq<Seq<char>> {
    let parts = split_on(s, '\n');
    let body = parts.drop_last().map_values(strip_cr_fn());
    if parts.last().len() == 0 {
        body
    } else {
        body.push(parts.last())
    }
}

pub fn split_lines(s: &Vec<char>) -> (r: Vec<Vec<char>>)
    ensures
        texts(r@) == lines(s@),
{
    let parts = split_on_char(s, '\n');
    proof {
        lemma_split_fields_nonempty(s@, false, '\n');
    }
    let ghost all = texts(parts@);
    let last = parts.len() - 1;
    let mut out: Vec<Vec<char>> = Vec::new();
    let mut i: usize = 0;
    while i < last
        invariant
            last + 1 == parts.len(),
            i <= last,
            all == texts(parts@),
            all.len() == parts.len(),
            texts(out@) == all.take(i as int).map_values(strip_cr_fn()),
        decreases last - i,
    {
        let p = &parts[i];
        let line = if p.len() > 0 && p[p.len() - 1] == '\r' {
            sub_chars(p, 0, p.len() - 1)
        } else {
            sub_chars(p, 0, p.len())
        };
        assert(line@ == strip_cr(all[i as int]));
        let ghost old_out = out@;
        out.push(line);
        proof {
            lemma_texts_push(old_out, line);
            assert(all.take(i + 1).map_values(strip_cr_fn()) =~= all.take(
                i as int,
            ).map_values(strip_cr_fn()).push(strip_cr(all[i as int])));
        }
        i = i + 1;
    }
    assert(all.take(last as int) =~= all.drop_last());
    assert(all[last as int] == parts@[last as int]@);
    assert(all.last() == all[last as int]);
    let ghost body = all.drop_last().map_values(strip_cr_fn());
    assert(texts(out@) == body);
    assert(all == split_on(s@, '\n'));
    if parts[last].len() > 0 {
        let p = sub_chars(&parts[last], 0, parts[last].len());
        assert(p@ =~= all.last());
        let ghost old_out = out@;
        out.push(p);
        proof {
            lemma_texts_push(old_out, p);
        }
        assert(texts(out@) == body.push(all.last()));
    } else {
        assert(all.last().len() == 0);
    }
    out
}

/// The lines of a `str`.
pub fn lines_of(s: &str) -> (r: Vec<Vec<char>>)
    ensures
        texts(r@) == lines(s@),
{
    let cs = chars_of(s);
    split_lines(&cs)
}

// ---------------------------------------------------------------------------
// Splitting from the right, and removing a character
// ---------------------------------------------------------------------------

/// Index of the last `c` in `s`, or -1 when there is none.
pub open spec fn last_index_of(s: Seq<char>, c: char) -> int
    decreases s.len(),
{
    if s.len() == 0 {
        -1
    } else if s.last() == c {
        s.len() - 1
    } else {
        last_index_of(s.drop_last(), c)
    }
}

/// `str::rsplitn(n, c)` for `n >= 1`: splits at the last `n - 1` occurrences of
/// `c` (at most), right-most piece first; the last piece is the unsplit rest.
pub open spec fn rsplitn(s: Seq<char>, n: nat, c: char) -> Seq<Seq<char>>
    decreases n,
{
    if n <= 1 {
        seq![s]
    } else {
        let i = last_index_of(s, c);
        if i < 0 {
            seq![s]
        } else {
            seq![s.subrange(i + 1, s.len() as int)] + rsplitn(s.subrange(0, i), (n - 1) as nat, c)
        }
    }
}

pub proof fn lemma_last_index_of_bounds(s: Seq<char>, c: char)
    ensures
        -1 <= last_index_of(s, c) < s.len(),
        last_index_of(s, c) >= 0 ==> s[last_index_of(s, c)] == c,
    decreases s.len(),
{
    if s.len() > 0 && s.last() != c {
        lemma_last_index_of_bounds(s.drop_last(), c);
    }
}

/// Position of the last `c` in `s[0..end]`.
fn find_last(s: &Vec<char>, end: usize, c: char) -> (r: Option<usize>)
    requires
        end <= s.len(),
    ensures
        match r {
            Some(j) => j == last_index_of(s@.subrange(0, end as int), c),
            None => last_index_of(s@.subrange(0, end as int), c) == -1,
        },
{
    let mut j = end;
    while j > 0
        invariant
            j <= end <= s.len(),
            last_index_of(s@.subrange(0, end as int), c) == last_index_of(
                s@.subrange(0, j as int),
                c,
            ),
        decreases j,
    {
        assert(s@.subrange(0, j as int).drop_last() =~= s@.subrange(0, j - 1));
        if s[j - 1] == c {
            return Some(j - 1);
        }
        j = j - 1;
    }
    None
}

/// `str::rsplitn(n, c)`.
pub fn rsplitn_chars(s: &Vec<char>, n: usize, c: char) -> (r: Vec<Vec<char>>)
    requires
        n >= 1,
    ensures
        texts(r@) == rsplitn(s@, n as nat, c),
{
    let mut out: Vec<Vec<char>> = Vec::new();
    let mut end = s.len();
    let mut k = n;
    assert(s@.subrange(0, end as int) =~= s@);
    while k > 1
        invariant
            end <= s.len(),
            k >= 1,
            texts(out@) + rsplitn(s@.subrange(0, end as int), k as nat, c) == rsplitn(
                s@,
                n as nat,
                c,
            ),
        ensures
            end <= s.len(),
            texts(out@) + seq![s@.subrange(0, end as int)] == rsplitn(s@, n as nat, c),
        decreases k,
    {
        match find_last(s, end, c) {
            Some(j) => {
                proof {
                    lemma_last_index_of_bounds(s@.subrange(0, end as int), c);
                }
                let piece = sub_chars(s, j + 1, end);
                let ghost old_out = out@;
                let ghost pre = s@.subrange(0, end as int);
                assert(piece@ =~= pre.subrange(j + 1, pre.len() as int));
                assert(pre.subrange(0, j as int) =~= s@.subrange(0, j as int));
                out.push(piece);
                proof {
                    lemma_texts_push(old_out, piece);
                    assert(texts(out@) + rsplitn(s@.subrange(0, j as int), (k - 1) as nat, c)
                        =~= texts(old_out) + rsplitn(pre, k as nat, c));
                }
                end = j;
                k = k - 1;
            },
            None => {
                assert(rsplitn(s@.subrange(0, end as int), k as nat, c) =~= seq![
                    s@.subrange(0, end as int),
                ]);
                break ;
            },
        }
    }
    let ghost old_out = out@;
    let rest = sub_chars(s, 0, end);
    out.push(rest);
    proof {
        lemma_texts_push(old_out, rest);
        assert(texts(out@) =~= texts(old_out) + seq![s@.subrange(0, end as int)]);
    }
    out
}

/// Keeps every character other than `c`.
pub open spec fn other_than(c: char) -> spec_fn(char) -> bool {
    |x: char| x != c
}

/// `s` with every `c` removed (`str::replace(c, "")`).
pub open spec fn without_char(s: Seq<char>, c: char) -> Seq<char> {
    s.filter(other_than(c))
}

pub fn remove_char(s: &Vec<char>, c: char) -> (r: Vec<char>)
    ensures
        r@ == without_char(s@, c),
{
    let mut out: Vec<char> = Vec::new();
    let mut i: usize = 0;
    while i < s.len()
        invariant
            i <= s.len(),
            out@ == s@.take(i as int).filter(other_than(c)),
        decreases s.len() - i,
    {
        proof {
            assert(s@.take(i + 1) =~= s@.take(i as int).push(s@[i as int]));
            s@.take(i as int).lemma_filter_push(s@[i as int], other_than(c));
        }
        if s[i] != c {
            out.push(s[i]);
        }
        i = i + 1;
    }
    assert(s@.take(s.len() as int) =~= s@);
    out
}

// ---------------------------------------------------------------------------
// Lower case
// ---------------------------------------------------------------------------

/// Names what `str::to_lowercase` returns for a text (Unicode lower-case
/// mapping, which takes tables to state).
pub uninterp spec fn lowercase_of(s: Seq<char>) -> Seq<char>;

/// `str::to_lowercase`; the contract claims only that the result is the
/// function `lowercase_of` of the input text.
#[verifier::external_body]
fn to_lowercase_str(s: &str) -> (r: String)
    ensures
        r@ == lowercase_of(s@),
{
    s.to_lowercase()
}

/// A copy of `v`.
pub fn copy_chars(v: &Vec<char>) -> (r: Vec<char>)
    ensures
        r@ == v@,
{
    let r = sub_chars(v, 0, v.len());
    assert(r@ =~= v@);
    r
}

/// The lower-case form of a text (`str::to_lowercase`).
pub fn lowercase_chars(s: &Vec<char>) -> (r: Vec<char>)
    ensures
        r@ == lowercase_of(s@),
{
    let st = string_from_chars(copy_chars(s));
    let low = to_lowercase_str(st.as_str());
    chars_of(low.as_str())
}

} // verus!
