use vstd::prelude::*;

verus! {

/// Relies on `String::push`: appends one character at the end.
#[verifier::external_body]
pub(crate) fn push_char(s: &mut String, c: char)
    ensures
        final(s)@ == old(s)@.push(c),
{
    s.push(c);
}

/// The characters of `s`, in order.
pub fn chars_of(s: &str) -> (r: Vec<char>)
    ensures
        r@ == s@,
{
    let mut r: Vec<char> = Vec::new();
    for c in it: s.chars()
        invariant
            r@ == it.seq().take(it.index() as int),
            it.seq() == s@,
    {
        r.push(c);
    }
    r
}


/// ASCII whitespace, as HTML treats it between words.
pub open spec fn is_ws(c: char) -> bool {
    c == ' ' || c == '\t' || c == '\n' || c == '\r' || c == '\x0C'
}

pub open spec fn trim_start_ws(s: Seq<char>) -> Seq<char>
    decreases s.len(),
{
    if s.len() > 0 && is_ws(s[0]) {
        trim_start_ws(s.drop_first())
    } else {
        s
    }
}

pub open spec fn trim_end_ws(s: Seq<char>) -> Seq<char>
    decreases s.len(),
{
    if s.len() > 0 && is_ws(s.last()) {
        trim_end_ws(s.drop_last())
    } else {
        s
    }
}

/// `s` without leading and trailing whitespace.
pub open spec fn trim_ws(s: Seq<char>) -> Seq<char> {
    trim_end_ws(trim_start_ws(s))
}

/// The code of `c` with ASCII upper-case letters folded to lower case.
pub open spec fn folded_code(c: char) -> u32 {
    if 'A' <= c && c <= 'Z' {
        (c as u32 + 32) as u32
    } else {
        c as u32
    }
}

/// `a` and `b` are equal when ASCII letters are compared without case.
pub open spec fn eq_ignore_ascii_case(a: Seq<char>, b: Seq<char>) -> bool {
    a.len() == b.len() && forall|i: int| 0 <= i < a.len() ==> folded_code(a[i]) == folded_code(b[i])
}

pub fn is_ws_char(c: char) -> (r: bool)
    ensures
        r == is_ws(c),
{
    c == ' ' || c == '\t' || c == '\n' || c == '\r' || c == '\x0C'
}

proof fn lemma_trim_start(s: Seq<char>, i: int)
    requires
        0 <= i <= s.len(),
        forall|k: int| 0 <= k < i ==> is_ws(s[k]),
        i == s.len() || !is_ws(s[i]),
    ensures
        trim_start_ws(s) == s.subrange(i, s.len() as int),
    decreases i,
{
    if i == 0 {
        assert(s.subrange(0, s.len() as int) =~= s);
    } else {
        let t = s.drop_first();
        assert forall|k: int| 0 <= k < i - 1 implies is_ws(t[k]) by {
            assert(t[k] == s[k + 1]);
        }
        lemma_trim_start(t, i - 1);
        assert(t.subrange(i - 1, t.len() as int) =~= s.subrange(i, s.len() as int));
    }
}

proof fn lemma_trim_end(s: Seq<char>, j: int)
    requires
        0 <= j <= s.len(),
        forall|k: int| j <= k < s.len() ==> is_ws(s[k]),
        j == 0 || !is_ws(s[j - 1]),
    ensures
        trim_end_ws(s) == s.subrange(0, j),
    decreases s.len() - j,
{
    if j == s.len() {
        assert(s.subrange(0, j) =~= s);
    } else {
        let t = s.drop_last();
        lemma_trim_end(t, j);
        assert(t.subrange(0, j) =~= s.subrange(0, j));
    }
}

/// The characters of `s` from `from` up to `to`.
pub fn slice_chars(s: &Vec<char>, from: usize, to: usize) -> (r: Vec<char>)
    requires
        from <= to <= s.len(),
    ensures
        r@ == s@.subrange(from as int, to as int),
{
    let mut r: Vec<char> = Vec::new();
    let mut k: usize = from;
    while k < to
        invariant
            from <= k <= to <= s.len(),
            r@ == s@.subrange(from as int, k as int),
        decreases to - k,
    {
        r.push(s[k]);
        k = k + 1;
        assert(r@ =~= s@.subrange(from as int, k as int));
    }
    r
}

/// `s` without leading and trailing whitespace.
pub fn trim_chars(s: &Vec<char>) -> (r: Vec<char>)
    ensures
        r@ == trim_ws(s@),
{
    let n = s.len();
    let mut i: usize = 0;
    while i < n && is_ws_char(s[i])
        invariant
            i <= n == s.len(),
            forall|k: int| 0 <= k < i ==> is_ws(s@[k]),
        decreases n - i,
    {
        i = i + 1;
    }
    proof {
        lemma_trim_start(s@, i as int);
    }
    let ghost t = s@.subrange(i as int, n as int);
    let mut j: usize = n;
    while j > i && is_ws_char(s[j - 1])
        invariant
            i <= j <= n == s.len(),
            forall|k: int| j <= k < n ==> is_ws(s@[k]),
        decreases j,
    {
        j = j - 1;
    }
    proof {
        assert forall|k: int| j - i <= k < t.len() implies is_ws(t[k]) by {
            assert(t[k] == s@[k + i]);
        }
        lemma_trim_end(t, j - i);
        assert(t.subrange(0, j - i) =~= s@.subrange(i as int, j as int));
    }
    slice_chars(s, i, j)
}

/// Whether `a` and `b` are equal when ASCII letters are compared without case.
pub fn chars_eq_ignore_ascii_case(a: &Vec<char>, b: &Vec<char>) -> (r: bool)
    ensures
        r == eq_ignore_ascii_case(a@, b@),
{
    if a.len() != b.len() {
        return false;
    }
    let mut i: usize = 0;
    while i < a.len()
        invariant
            i <= a.len() == b.len(),
            forall|k: int| 0 <= k < i ==> folded_code(a@[k]) == folded_code(b@[k]),
        decreases a.len() - i,
    {
        if fold_char(a[i]) != fold_char(b[i]) {
            return false;
        }
        i = i + 1;
    }
    true
}

fn fold_char(c: char) -> (r: u32)
    ensures
        r == folded_code(c),
{
    if 'A' <= c && c <= 'Z' {
        c as u32 + 32
    } else {
        c as u32
    }
}

pub open spec fn opt_chars(o: Option<String>) -> Option<Seq<char>> {
    match o {
        Some(s) => Some(s@),
        None => None,
    }
}

/// `name` occurs in `s` at `i`.
pub open spec fn occurs_at(s: Seq<char>, name: Seq<char>, i: int) -> bool {
    0 <= i && i + name.len() <= s.len() && s.subrange(i, i + name.len()) == name
}

/// `name` occurs somewhere in `s`.
pub open spec fn contains_chars(s: Seq<char>, name: Seq<char>) -> bool {
    exists|i: int| occurs_at(s, name, i)
}

/// `name` is one of the whitespace-separated words of `s`.
pub open spec fn has_word(s: Seq<char>, name: Seq<char>) -> bool {
    &&& name.len() > 0
    &&& forall|k: int| 0 <= k < name.len() ==> !is_ws(name[k])
    &&& exists|i: int|
        #[trigger] occurs_at(s, name, i) && (i == 0 || is_ws(s[i - 1])) && (i + name.len() == s.len()
            || is_ws(s[i + name.len()]))
}

fn occurs_at_exec(s: &Vec<char>, name: &Vec<char>, i: usize) -> (r: bool)
    requires
        i + name.len() <= s.len(),
    ensures
        r == occurs_at(s@, name@, i as int),
{
    let mut k: usize = 0;
    while k < name.len()
        invariant
            k <= name.len(),
            i + name.len() <= s.len(),
            forall|j: int| 0 <= j < k ==> s@[i + j] == name@[j],
        decreases name.len() - k,
    {
        if s[i + k] != name[k] {
            assert(s@.subrange(i as int, i + name.len())[k as int] != name@[k as int]);
            return false;
        }
        k = k + 1;
    }
    assert(s@.subrange(i as int, i + name.len()) =~= name@);
    true
}

/// Whether `a` and `b` hold the same characters.
pub fn chars_eq(a: &Vec<char>, b: &Vec<char>) -> (r: bool)
    ensures
        r == (a@ == b@),
{
    if a.len() != b.len() {
        return false;
    }
    let mut i: usize = 0;
    while i < a.len()
        invariant
            i <= a.len() == b.len(),
            forall|k: int| 0 <= k < i ==> a@[k] == b@[k],
        decreases a.len() - i,
    {
        if a[i] != b[i] {
            return false;
        }
        i = i + 1;
    }
    assert(a@ =~= b@);
    true
}

/// Whether `name` occurs somewhere in `s`.
pub fn contains_chars_exec(s: &Vec<char>, name: &Vec<char>) -> (r: bool)
    ensures
        r == contains_chars(s@, name@),
{
    if name.len() > s.len() {
        return false;
    }
    let last = s.len() - name.len();
    let mut i: usize = 0;
    loop
        invariant
            i <= last,
            last + name.len() == s.len(),
            forall|j: int| 0 <= j < i ==> !occurs_at(s@, name@, j),
        decreases last - i,
    {
        if occurs_at_exec(s, name, i) {
            return true;
        }
        if i == last {
            assert forall|j: int| occurs_at(s@, name@, j) implies j < i + 1 by {}
            return false;
        }
        i = i + 1;
    }
}

/// Whether `name` is one of the whitespace-separated words of `s`.
pub fn has_word_exec(s: &Vec<char>, name: &Vec<char>) -> (r: bool)
    ensures
        r == has_word(s@, name@),
{
    if name.len() == 0 || name.len() > s.len() {
        return false;
    }
    let mut k: usize = 0;
    while k < name.len()
        invariant
            k <= name.len(),
            forall|j: int| 0 <= j < k ==> !is_ws(name@[j]),
        decreases name.len() - k,
    {
        if is_ws_char(name[k]) {
            return false;
        }
        k = k + 1;
    }
    let n = name.len();
    let last = s.len() - n;
    let mut i: usize = 0;
    loop
        invariant
            i <= last,
            last + n == s.len(),
            0 < n == name.len(),
            forall|j: int| 0 <= j < n ==> !is_ws(name@[j]),
            forall|j: int|
                0 <= j < i ==> !(occurs_at(s@, name@, j) && (j == 0 || is_ws(s@[j - 1])) && (j
                    + n == s.len() || is_ws(s@[j + n]))),
        decreases last - i,
    {
        let starts = i == 0 || is_ws_char(s[i - 1]);
        let ends = i + n == s.len() || is_ws_char(s[i + n]);
        if starts && ends && occurs_at_exec(s, name, i) {
            let ghost w = i as int;
            assert(occurs_at(s@, name@, w) && (w == 0 || is_ws(s@[w - 1])) && (w + n == s.len()
                || is_ws(s@[w + n])));
            return true;
        }
        if i == last {
            return false;
        }
        i = i + 1;
    }
}

/// The string holding the characters `cs`.
pub fn string_of(cs: &Vec<char>) -> (r: String)
    ensures
        r@ == cs@,
{
    let mut r = String::new();
    let mut i: usize = 0;
    while i < cs.len()
        invariant
            i <= cs.len(),
            r@ == cs@.take(i as int),
        decreases cs.len() - i,
    {
        push_char(&mut r, cs[i]);
        i = i + 1;
        assert(r@ =~= cs@.take(i as int));
    }
    assert(cs@.take(i as int) =~= cs@);
    r
}

pub open spec fn strings_view(ss: Seq<String>) -> Seq<Seq<char>> {
    ss.map_values(|s: String| s@)
}

/// The pieces of `s` between occurrences of `c` (one more than there are `c`s).
pub open spec fn split_on(s: Seq<char>, c: char) -> Seq<Seq<char>>
    decreases s.len(),
{
    if s.len() == 0 {
        seq![Seq::empty()]
    } else {
        let front = split_on(s.drop_last(), c);
        if s.last() == c {
            front.push(Seq::empty())
        } else {
            front.update(front.len() - 1, front.last().push(s.last()))
        }
    }
}

/// `parts` with `sep` between each two of them.
pub open spec fn joined(parts: Seq<Seq<char>>, sep: char) -> Seq<char>
    decreases parts.len(),
{
    if parts.len() == 0 {
        Seq::empty()
    } else if parts.len() == 1 {
        parts[0]
    } else {
        joined(parts.drop_last(), sep).push(sep) + parts.last()
    }
}

/// `s` with every `from` replaced by `to`.
pub open spec fn replaced(s: Seq<char>, from: char, to: char) -> Seq<char> {
    s.map_values(|x: char| if x == from { to } else { x })
}

proof fn lemma_split_nonempty(s: Seq<char>, c: char)
    ensures
        split_on(s, c).len() > 0,
    decreases s.len(),
{
    if s.len() > 0 {
        lemma_split_nonempty(s.drop_last(), c);
    }
}

proof fn lemma_joined_last(parts: Seq<Seq<char>>, sep: char, x: char)
    requires
        parts.len() > 0,
    ensures
        joined(parts.update(parts.len() - 1, parts.last().push(x)), sep) == joined(parts, sep).push(x),
{
    let q = parts.update(parts.len() - 1, parts.last().push(x));
    if parts.len() > 1 {
        assert(q.drop_last() =~= parts.drop_last());
        assert(joined(parts.drop_last(), sep).push(sep) + parts.last().push(x) =~= (joined(
            parts.drop_last(),
            sep,
        ).push(sep) + parts.last()).push(x));
    }
}

/// Joining the pieces of `s` split at `c` with `d` replaces each `c` by `d`.
pub proof fn lemma_split_join(s: Seq<char>, c: char, d: char)
    ensures
        joined(split_on(s, c), d) == replaced(s, c, d),
    decreases s.len(),
{
    if s.len() == 0 {
        assert(replaced(s, c, d) =~= Seq::<char>::empty());
    } else {
        let front = split_on(s.drop_last(), c);
        lemma_split_join(s.drop_last(), c, d);
        lemma_split_nonempty(s.drop_last(), c);
        assert(replaced(s, c, d) =~= replaced(s.drop_last(), c, d).push(
            if s.last() == c { d } else { s.last() },
        ));
        if s.last() == c {
            assert(front.push(Seq::empty()).drop_last() =~= front);
            assert(joined(front, d).push(d) + Seq::<char>::empty() =~= joined(front, d).push(d));
        } else {
            lemma_joined_last(front, d, s.last());
        }
    }
}

/// The pieces of `s` between occurrences of `c`.
pub fn split_chars(s: &Vec<char>, c: char) -> (r: Vec<String>)
    ensures
        strings_view(r@) == split_on(s@, c),
{
    let mut done: Vec<String> = Vec::new();
    let mut cur: Vec<char> = Vec::new();
    let mut i: usize = 0;
    while i < s.len()
        invariant
            i <= s.len(),
            strings_view(done@).push(cur@) == split_on(s@.take(i as int), c),
        decreases s.len() - i,
    {
        let ghost f = strings_view(done@).push(cur@);
        let ghost t = s@.take(i + 1);
        assert(t.drop_last() =~= s@.take(i as int));
        if s[i] == c {
            let piece = string_of(&cur);
            done.push(piece);
            cur = Vec::new();
            assert(strings_view(done@).push(cur@) =~= f.push(Seq::empty()));
        } else {
            cur.push(s[i]);
            assert(strings_view(done@).push(cur@) =~= f.update(f.len() - 1, f.last().push(s@[i as int])));
        }
        i = i + 1;
    }
    assert(s@.take(i as int) =~= s@);
    let ghost before = done@;
    done.push(string_of(&cur));
    assert(strings_view(done@) =~= strings_view(before).push(cur@));
    done
}

/// `parts` with `separator` between each two of them.
pub fn join_split(parts: &Vec<String>, separator: char) -> (r: String)
    ensures
        r@ == joined(strings_view(parts@), separator),
{
    let ghost pv = strings_view(parts@);
    let mut r = String::new();
    let mut i: usize = 0;
    while i < parts.len()
        invariant
            i <= parts.len(),
            pv == strings_view(parts@),
            r@ == joined(pv.take(i as int), separator),
        decreases parts.len() - i,
    {
        let ghost t = pv.take(i + 1);
        assert(t.drop_last() =~= pv.take(i as int));
        if i > 0 {
            push_char(&mut r, separator);
        } else {
            assert(r@ == Seq::<char>::empty());
        }
        r.append(parts[i].as_str());
        proof {
            if i == 0 {
                assert(r@ =~= t[0]);
            }
        }
        i = i + 1;
    }
    assert(pv.take(i as int) =~= pv);
    r
}

} // verus!
