//! Character and word handling shared by the tokenizer, the number-word
//! parser and the execution engine: Unicode case and whitespace tests
//! (relied on from the standard library and given names here), trimming,
//! splitting a statement into words, and joining words back together.
use vstd::prelude::*;

verus! {

/// What `str::to_lowercase` returns for a given character sequence.
pub uninterp spec fn lower_of(s: Seq<char>) -> Seq<char>;

/// Whether `char::is_uppercase` holds of a character.
pub uninterp spec fn upper_of(c: char) -> bool;

/// Whether `char::is_whitespace` holds of a character.
pub uninterp spec fn white_of(c: char) -> bool;

/// Relies on `str::to_lowercase`: the result depends on the characters alone.
#[verifier::external_body]
pub(crate) fn to_lower(s: &String) -> (r: String)
    ensures
        r@ == lower_of(s@),
{
    s.as_str().to_lowercase()
}

/// Relies on `char::is_uppercase`: the answer depends on the character alone.
#[verifier::external_body]
pub(crate) fn is_upper(c: char) -> (r: bool)
    ensures
        r == upper_of(c),
{
    c.is_uppercase()
}

/// Relies on `char::is_whitespace`: the answer depends on the character alone.
#[verifier::external_body]
pub(crate) fn is_white(c: char) -> (r: bool)
    ensures
        r == white_of(c),
{
    c.is_whitespace()
}

/// `s` without its leading whitespace.
pub open spec fn ltrim_spec(s: Seq<char>) -> Seq<char>
    decreases s.len(),
{
    if s.len() > 0 && white_of(s[0]) {
        ltrim_spec(s.drop_first())
    } else {
        s
    }
}

/// `s` without its trailing whitespace.
pub open spec fn rtrim_spec(s: Seq<char>) -> Seq<char>
    decreases s.len(),
{
    if s.len() > 0 && white_of(s.last()) {
        rtrim_spec(s.drop_last())
    } else {
        s
    }
}

/// `s` without leading and trailing whitespace.
pub open spec fn trim_spec(s: Seq<char>) -> Seq<char> {
    rtrim_spec(ltrim_spec(s))
}

proof fn lemma_ltrim_step(s: Seq<char>, i: int)
    requires
        0 <= i < s.len(),
        forall|j: int| 0 <= j < i ==> white_of(s[j]),
    ensures
        white_of(s[i]) ==> ltrim_spec(s) == ltrim_spec(s.subrange(i + 1, s.len() as int)),
        !white_of(s[i]) ==> ltrim_spec(s) == s.subrange(i, s.len() as int),
    decreases i,
{
    if i == 0 {
        assert(s.subrange(0, s.len() as int) =~= s);
        if white_of(s[0]) {
            assert(s.drop_first() =~= s.subrange(1, s.len() as int));
        }
    } else {
        assert(white_of(s[0]));
        let t = s.drop_first();
        assert(ltrim_spec(s) == ltrim_spec(t));
        lemma_ltrim_step(t, i - 1);
        assert(t.subrange(i, t.len() as int) =~= s.subrange(i + 1, s.len() as int));
        assert(t.subrange(i - 1, t.len() as int) =~= s.subrange(i, s.len() as int));
    }
}

proof fn lemma_rtrim_step(s: Seq<char>, i: int)
    requires
        0 <= i <= s.len(),
        forall|j: int| i <= j < s.len() ==> white_of(s[j]),
    ensures
        rtrim_spec(s) == rtrim_spec(s.subrange(0, i)),
    decreases s.len() - i,
{
    if i == s.len() {
        assert(s.subrange(0, i) =~= s);
    } else {
        assert(white_of(s.last()));
        let t = s.drop_last();
        assert(rtrim_spec(s) == rtrim_spec(t));
        lemma_rtrim_step(t, i);
        assert(t.subrange(0, i) =~= s.subrange(0, i));
    }
}

/// Strip leading and trailing whitespace from a statement, as `str::trim`
/// does, but by a verified scan.
pub fn trim_str(s: &str) -> (r: &str)
    ensures
        r@ == trim_spec(s@),
{
    let n = s.unicode_len();
    let mut start: usize = 0;
    while start < n && is_white(s.get_char(start))
        invariant
            start <= n,
            n == s@.len(),
            forall|j: int| 0 <= j < start ==> white_of(s@[j]),
        decreases n - start,
    {
        start = start + 1;
    }
    proof {
        if start < n {
            lemma_ltrim_step(s@, start as int);
        } else {
            if n > 0 {
                lemma_ltrim_step(s@, n - 1);
                assert(s@.subrange(n as int, n as int) =~= Seq::<char>::empty());
            }
            assert(s@.subrange(start as int, n as int) =~= ltrim_spec(s@));
        }
    }
    let ghost lt = ltrim_spec(s@);
    assert(lt == s@.subrange(start as int, n as int));
    let mut end: usize = n;
    while end > start && is_white(s.get_char(end - 1))
        invariant
            start <= end <= n,
            n == s@.len(),
            lt == s@.subrange(start as int, n as int),
            forall|j: int| end <= j < n ==> white_of(s@[j]),
            rtrim_spec(lt) == rtrim_spec(s@.subrange(start as int, end as int)),
        decreases end,
    {
        proof {
            let cur = s@.subrange(start as int, end as int);
            assert(cur.last() == s@[end - 1]);
            assert(cur.drop_last() =~= s@.subrange(start as int, end - 1));
        }
        end = end - 1;
    }
    let r = s.substring_char(start, end);
    proof {
        let cur = s@.subrange(start as int, end as int);
        if end > start {
            assert(!white_of(cur.last()));
        }
        assert(rtrim_spec(cur) == cur);
    }
    r
}

/// The first index at or after `i` where `sep` stands in `s`, or the length
/// of `s` when there is none.
pub open spec fn find_from(s: Seq<char>, sep: char, i: int) -> int
    decreases s.len() - i,
{
    if i < 0 || i >= s.len() {
        s.len() as int
    } else if s[i] == sep {
        i
    } else {
        find_from(s, sep, i + 1)
    }
}

proof fn lemma_find_from(s: Seq<char>, sep: char, i: int)
    requires
        0 <= i <= s.len(),
    ensures
        i <= find_from(s, sep, i) <= s.len(),
        forall|j: int| i <= j < find_from(s, sep, i) ==> s[j] != sep,
        find_from(s, sep, i) < s.len() ==> s[find_from(s, sep, i)] == sep,
    decreases s.len() - i,
{
    if i < s.len() && s[i] != sep {
        lemma_find_from(s, sep, i + 1);
    }
}

/// The words of `s`, split on every occurrence of `sep`; consecutive
/// separators yield empty words.  An empty `s` yields one empty word,
/// matching `str::split`.
pub open spec fn split_from(s: Seq<char>, sep: char, start: int) -> Seq<Seq<char>>
    decreases s.len() - start,
    via split_from_decreases
{
    let i = find_from(s, sep, start);
    if start < 0 || i >= s.len() {
        seq![s.subrange(start, s.len() as int)]
    } else {
        seq![s.subrange(start, i)] + split_from(s, sep, i + 1)
    }
}

#[via_fn]
proof fn split_from_decreases(s: Seq<char>, sep: char, start: int) {
    if 0 <= start <= s.len() {
        lemma_find_from(s, sep, start);
    }
}

pub open spec fn split_spec(s: Seq<char>, sep: char) -> Seq<Seq<char>> {
    split_from(s, sep, 0)
}

pub proof fn lemma_split_at_least_one(s: Seq<char>, sep: char)
    ensures
        split_spec(s, sep).len() >= 1,
{
}

/// Split `s` on every occurrence of `sep`, as `str::split` does.
pub fn split_str(s: &str, sep: char) -> (r: Vec<String>)
    ensures
        r.deep_view() == split_spec(s@, sep),
{
    let n = s.unicode_len();
    let mut r: Vec<String> = Vec::new();
    let mut start: usize = 0;
    let mut i: usize = 0;
    while i < n
        invariant
            start <= i <= n,
            n == s@.len(),
            forall|j: int| start <= j < i ==> s@[j] != sep,
            r.deep_view() + split_from(s@, sep, start as int) == split_spec(s@, sep),
        decreases n - i,
    {
        if s.get_char(i) == sep {
            let w = s.substring_char(start, i).to_owned();
            proof {
                assert(find_from(s@, sep, start as int) == i) by {
                    lemma_find_from(s@, sep, start as int);
                    if find_from(s@, sep, start as int) < i {
                        assert(s@[find_from(s@, sep, start as int)] == sep);
                    }
                }
            }
            let ghost prev = r.deep_view();
            r.push(w);
            proof {
                assert(r.deep_view() =~= prev.push(w@));
                assert(r.deep_view() + split_from(s@, sep, i + 1) =~= split_spec(s@, sep));
            }
            start = i + 1;
            i = i + 1;
        } else {
            i = i + 1;
        }
    }
    let w = s.substring_char(start, n).to_owned();
    let ghost prev = r.deep_view();
    r.push(w);
    proof {
        assert(r.deep_view() =~= prev.push(w@));
        assert(find_from(s@, sep, start as int) == n) by {
            lemma_find_from(s@, sep, start as int);
            if find_from(s@, sep, start as int) < n {
                assert(s@[find_from(s@, sep, start as int)] == sep);
            }
        }
        assert(split_from(s@, sep, start as int) =~= seq![s@.subrange(start as int, n as int)]);
        assert(r.deep_view() =~= split_spec(s@, sep));
    }
    r
}

/// The words joined with single spaces, as the `Var` opcode forms a string
/// value from its arguments.
pub open spec fn join_from(args: Seq<Seq<char>>, i: int) -> Seq<char>
    decreases args.len() - i,
{
    if i < 0 || i >= args.len() {
        Seq::empty()
    } else if i == args.len() - 1 {
        args[i]
    } else {
        args[i] + seq![' '] + join_from(args, i + 1)
    }
}

pub open spec fn join_spec(args: Seq<Seq<char>>) -> Seq<char> {
    join_from(args, 0)
}

/// Join words with single spaces, as `[String]::join` does.
pub fn join_words(args: &Vec<String>, from: usize) -> (r: String)
    requires
        from <= args@.len(),
    ensures
        r@ == join_from(args.deep_view(), from as int),
    decreases args@.len() - from,
{
    if from >= args.len() {
        String::new()
    } else if from == args.len() - 1 {
        let r = args[from].clone();
        r
    } else {
        let mut r = args[from].clone();
        r.append(" ");
        let rest = join_words(args, from + 1);
        r.append(rest.as_str());
        proof {
            assert(r@ =~= args.deep_view()[from as int] + seq![' '] + join_from(
                args.deep_view(),
                from as int + 1,
            )) by {
                reveal_strlit(" ");
            }
        }
        r
    }
}

} // verus!
