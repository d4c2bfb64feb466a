//! What the wire server does to the text of a statement before the SQL
//! engine sees it: it finds the first keyword, and it rewrites the few
//! client idioms that the engine does not know.

use vstd::prelude::*;
use vstd::string::*;
use crate::error::TimeFusionError;
use crate::text::chars_of;

verus! {

/// Whether `c` is white space: the characters with the Unicode property
/// `White_Space`.
pub open spec fn is_space(c: char) -> bool {
    let n = c as u32;
    ||| 0x09 <= n <= 0x0d
    ||| n == 0x20
    ||| n == 0x85
    ||| n == 0xa0
    ||| n == 0x1680
    ||| 0x2000 <= n <= 0x200a
    ||| n == 0x2028
    ||| n == 0x2029
    ||| n == 0x202f
    ||| n == 0x205f
    ||| n == 0x3000
}

/// Whether `c` can continue a keyword: an ASCII letter, digit or underscore.
pub open spec fn is_word_char(c: char) -> bool {
    let n = c as u32;
    ||| 0x30 <= n <= 0x39
    ||| 0x41 <= n <= 0x5a
    ||| 0x61 <= n <= 0x7a
    ||| n == 0x5f
}

/// The code of `c`, with the ASCII capitals folded onto the small letters.
pub open spec fn fold_case(c: char) -> u32 {
    let n = c as u32;
    if 0x41 <= n <= 0x5a {
        (n + 0x20) as u32
    } else {
        n
    }
}

/// How many white space characters `s` starts with.
pub open spec fn leading_spaces(s: Seq<char>) -> nat
    decreases s.len(),
{
    if s.len() == 0 || !is_space(s[0]) {
        0
    } else {
        1 + leading_spaces(s.skip(1))
    }
}

/// Whether `s` reads `word` from position `at` on, ASCII case ignored.
pub open spec fn reads_at(s: Seq<char>, at: int, word: Seq<char>) -> bool {
    &&& 0 <= at
    &&& at + word.len() <= s.len()
    &&& forall|j: int| 0 <= j < word.len() ==> fold_case(#[trigger] s[at + j]) == fold_case(word[j])
}

/// Whether the first keyword of `s` is `word`: after the leading white
/// space `s` reads `word`, ASCII case ignored, and the keyword ends there.
pub open spec fn first_keyword_is(s: Seq<char>, word: Seq<char>) -> bool {
    let at = leading_spaces(s) as int;
    &&& reads_at(s, at, word)
    &&& (at + word.len() == s.len() || !is_word_char(s[at + word.len()]))
}

fn space(c: char) -> (r: bool)
    ensures
        r == is_space(c),
{
    let n = c as u32;
    (0x09 <= n && n <= 0x0d) || n == 0x20 || n == 0x85 || n == 0xa0 || n == 0x1680 || (0x2000 <= n
        && n <= 0x200a) || n == 0x2028 || n == 0x2029 || n == 0x202f || n == 0x205f || n == 0x3000
}

fn word_char(c: char) -> (r: bool)
    ensures
        r == is_word_char(c),
{
    let n = c as u32;
    (0x30 <= n && n <= 0x39) || (0x41 <= n && n <= 0x5a) || (0x61 <= n && n <= 0x7a) || n == 0x5f
}

fn folded(c: char) -> (n: u32)
    ensures
        n == fold_case(c),
{
    let n = c as u32;
    if 0x41 <= n && n <= 0x5a {
        n + 0x20
    } else {
        n
    }
}

proof fn lemma_leading_spaces(s: Seq<char>, k: int)
    requires
        0 <= k <= s.len(),
        forall|j: int| 0 <= j < k ==> is_space(#[trigger] s[j]),
        k == s.len() || !is_space(s[k]),
    ensures
        leading_spaces(s) == k,
    decreases k,
{
    if k > 0 {
        let t = s.skip(1);
        assert forall|j: int| 0 <= j < k - 1 implies is_space(#[trigger] t[j]) by {
            assert(t[j] == s[j + 1]);
        }
        lemma_leading_spaces(t, k - 1);
    }
}

/// The position of the first character of `chars` that is not white space.
fn skip_spaces(chars: &Vec<char>) -> (at: usize)
    ensures
        at == leading_spaces(chars@),
        at <= chars.len(),
{
    let mut at: usize = 0;
    while at < chars.len() && space(chars[at])
        invariant
            at <= chars.len(),
            forall|j: int| 0 <= j < at ==> is_space(#[trigger] chars@[j]),
        decreases chars.len() - at,
    {
        at += 1;
    }
    proof {
        lemma_leading_spaces(chars@, at as int);
    }
    at
}

/// Whether `chars` reads `word` from position `at` on, ASCII case ignored.
fn reads_word_at(chars: &Vec<char>, at: usize, word: &Vec<char>) -> (r: bool)
    requires
        at <= chars.len(),
    ensures
        r == reads_at(chars@, at as int, word@),
{
    if word.len() > chars.len() - at {
        return false;
    }
    let mut j: usize = 0;
    while j < word.len()
        invariant
            j <= word.len(),
            at + word.len() <= chars.len(),
            forall|k: int| 0 <= k < j ==> fold_case(#[trigger] chars@[at + k]) == fold_case(word@[k]),
        decreases word.len() - j,
    {
        if folded(chars[at + j]) != folded(word[j]) {
            return false;
        }
        j += 1;
    }
    true
}

/// Whether the first keyword of `chars` is `word`.
fn has_first_keyword(chars: &Vec<char>, word: &str) -> (r: bool)
    ensures
        r == first_keyword_is(chars@, word@),
{
    let at = skip_spaces(chars);
    let letters = chars_of(word);
    if !reads_word_at(chars, at, &letters) {
        return false;
    }
    let end = at + letters.len();
    end == chars.len() || !word_char(chars[end])
}

/// What a simple query asks for, judged by its first keyword.
#[derive(Debug, Clone, Copy, PartialEq, Eq, Structural)]
pub enum QueryKind {
    Insert,
    Update,
    Delete,
    Other,
}

/// The kind of a statement: a write verb where its first keyword is
/// `INSERT`, `UPDATE` or `DELETE`, in any case; `Other` else.
pub open spec fn query_kind(sql: Seq<char>) -> QueryKind {
    if first_keyword_is(sql, "insert"@) {
        QueryKind::Insert
    } else if first_keyword_is(sql, "update"@) {
        QueryKind::Update
    } else if first_keyword_is(sql, "delete"@) {
        QueryKind::Delete
    } else {
        QueryKind::Other
    }
}

/// Tells the write verbs from everything else.
pub fn classify_query(query: &str) -> (kind: QueryKind)
    ensures
        kind == query_kind(query@),
{
    let chars = chars_of(query);
    if has_first_keyword(&chars, "insert") {
        QueryKind::Insert
    } else if has_first_keyword(&chars, "update") {
        QueryKind::Update
    } else if has_first_keyword(&chars, "delete") {
        QueryKind::Delete
    } else {
        QueryKind::Other
    }
}

/// Whether a statement defines data: its first keyword is `CREATE`, `ALTER`
/// or `DROP`. Tables are implicit, so such statements are not supported.
pub open spec fn is_ddl(sql: Seq<char>) -> bool {
    first_keyword_is(sql, "create"@) || first_keyword_is(sql, "alter"@) || first_keyword_is(
        sql,
        "drop"@,
    )
}

/// The cast that clients append to catalog lookups and that is stripped.
pub open spec fn regclass_cast() -> Seq<char> {
    "::regclass"@
}

/// `s` without the occurrences of `pattern`, found from left to right and
/// not overlapping. What is left is not searched again.
pub open spec fn without(s: Seq<char>, pattern: Seq<char>) -> Seq<char>
    decreases s.len(),
{
    if pattern.len() == 0 || s.len() < pattern.len() {
        s
    } else if s.take(pattern.len() as int) == pattern {
        without(s.skip(pattern.len() as int), pattern)
    } else {
        seq![s[0]] + without(s.skip(1), pattern)
    }
}

/// How many white space characters `s` ends with.
pub open spec fn trailing_spaces(s: Seq<char>) -> nat
    decreases s.len(),
{
    if s.len() == 0 || !is_space(s.last()) {
        0
    } else {
        1 + trailing_spaces(s.drop_last())
    }
}

/// `s` without the white space at its two ends.
pub open spec fn trimmed(s: Seq<char>) -> Seq<char> {
    let start = leading_spaces(s) as int;
    let end = s.len() - trailing_spaces(s);
    if start >= end {
        Seq::empty()
    } else {
        s.subrange(start, end)
    }
}

/// Whether `s` and `word` are the same text, ASCII case ignored.
pub open spec fn same_ignoring_case(s: Seq<char>, word: Seq<char>) -> bool {
    s.len() == word.len() && reads_at(s, 0, word)
}

/// The text of a statement: what is left when the white space around it
/// and one closing semicolon, with the white space before it, are taken
/// away.
pub open spec fn statement_text(sql: Seq<char>) -> Seq<char> {
    let text = trimmed(sql);
    if text.len() > 0 && text.last() == ';' {
        trimmed(text.drop_last())
    } else {
        text
    }
}

/// Whether a statement asks for the transaction isolation level: its text
/// is `SHOW TRANSACTION ISOLATION LEVEL` or `SHOW transaction_isolation`,
/// in any case.
pub open spec fn shows_isolation_level(sql: Seq<char>) -> bool {
    same_ignoring_case(statement_text(sql), "show transaction isolation level"@)
        || same_ignoring_case(statement_text(sql), "show transaction_isolation"@)
}

/// The statement that answers for the isolation level with a literal.
pub open spec fn isolation_level_answer() -> Seq<char> {
    "SELECT 'read committed' AS transaction_isolation"@
}

/// What the engine is given in place of a statement.
pub open spec fn rewritten(sql: Seq<char>) -> Seq<char> {
    if shows_isolation_level(sql) {
        isolation_level_answer()
    } else {
        without(sql, regclass_cast())
    }
}

/// A text that is shorter than the pattern holds no occurrence of it.
proof fn lemma_without_short(s: Seq<char>, pattern: Seq<char>)
    requires
        s.len() < pattern.len() || pattern.len() == 0,
    ensures
        without(s, pattern) == s,
{
}

/// Where `s` and `pattern` agree on the first characters of `s`, `take`
/// gives the pattern.
proof fn lemma_reads_exactly(s: Seq<char>, at: int, pattern: Seq<char>)
    requires
        0 <= at,
        at + pattern.len() <= s.len(),
    ensures
        (s.skip(at).take(pattern.len() as int) == pattern) <==> (forall|j: int|
            0 <= j < pattern.len() ==> #[trigger] s[at + j] == pattern[j]),
{
    let t = s.skip(at).take(pattern.len() as int);
    if forall|j: int| 0 <= j < pattern.len() ==> #[trigger] s[at + j] == pattern[j] {
        assert forall|j: int| 0 <= j < pattern.len() implies t[j] == pattern[j] by {
            assert(s[at + j] == pattern[j]);
        }
        assert(t =~= pattern);
    }
    if t == pattern {
        assert forall|j: int| 0 <= j < pattern.len() implies #[trigger] s[at + j] == pattern[j] by {
            assert(t[j] == s[at + j]);
        }
    }
}

/// Whether `chars` holds exactly `pattern` from position `at` on.
fn holds_at(chars: &Vec<char>, at: usize, pattern: &Vec<char>) -> (r: bool)
    requires
        at + pattern.len() <= chars.len(),
    ensures
        r == (chars@.skip(at as int).take(pattern.len() as int) == pattern@),
{
    let mut j: usize = 0;
    while j < pattern.len()
        invariant
            j <= pattern.len(),
            at + pattern.len() <= chars.len(),
            forall|k: int| 0 <= k < j ==> #[trigger] chars@[at + k] == pattern@[k],
        decreases pattern.len() - j,
    {
        if chars[at + j] != pattern[j] {
            proof {
                lemma_reads_exactly(chars@, at as int, pattern@);
            }
            return false;
        }
        j += 1;
    }
    proof {
        lemma_reads_exactly(chars@, at as int, pattern@);
    }
    true
}

/// Removes the occurrences of `pattern` from `text`.
fn remove_all(text: &str, pattern: &str) -> (out: String)
    ensures
        out@ == without(text@, pattern@),
{
    let chars = chars_of(text);
    let pat = chars_of(pattern);
    if pat.len() == 0 || chars.len() < pat.len() {
        return String::from_str(text);
    }
    let mut out = String::new();
    let mut start: usize = 0;
    let mut i: usize = 0;
    assert(chars@.skip(0) =~= chars@);
    assert(chars@.subrange(0, 0) =~= Seq::<char>::empty());
    while i <= chars.len() - pat.len()
        invariant
            chars@ == text@,
            pat@ == pattern@,
            0 < pat.len() <= chars.len(),
            start <= i <= chars.len(),
            without(text@, pattern@) == out@ + chars@.subrange(start as int, i as int) + without(
                chars@.skip(i as int),
                pattern@,
            ),
        decreases chars.len() - i,
    {
        let ghost rest = chars@.skip(i as int);
        if holds_at(&chars, i, &pat) {
            let piece = text.substring_char(start, i);
            out.append(piece);
            proof {
                assert(rest.skip(pat.len() as int) =~= chars@.skip(i + pat.len()));
                assert(chars@.subrange(i + pat.len(), i + pat.len()) =~= Seq::<char>::empty());
            }
            i = i + pat.len();
            start = i;
        } else {
            proof {
                assert(rest.skip(1) =~= chars@.skip(i + 1));
                assert(chars@.subrange(start as int, i as int) + seq![rest[0]] =~= chars@.subrange(
                    start as int,
                    i + 1,
                ));
            }
            i = i + 1;
        }
    }
    let tail = text.substring_char(start, chars.len());
    out.append(tail);
    proof {
        lemma_without_short(chars@.skip(i as int), pattern@);
        assert(chars@.subrange(start as int, i as int) + chars@.skip(i as int) =~= chars@.subrange(
            start as int,
            chars.len() as int,
        ));
    }
    out
}

proof fn lemma_trailing_spaces(s: Seq<char>, k: int)
    requires
        0 <= k <= s.len(),
        forall|j: int| s.len() - k <= j < s.len() ==> is_space(#[trigger] s[j]),
        k == s.len() || !is_space(s[s.len() - k - 1]),
    ensures
        trailing_spaces(s) == k,
    decreases k,
{
    if k > 0 {
        let t = s.drop_last();
        assert forall|j: int| t.len() - (k - 1) <= j < t.len() implies is_space(#[trigger] t[j]) by {
            assert(t[j] == s[j]);
        }
        lemma_trailing_spaces(t, k - 1);
    }
}

/// The bounds, within `chars`, of the part from `lo` to `hi` without the
/// white space at its two ends.
fn trim_bounds(chars: &Vec<char>, lo: usize, hi: usize) -> (bounds: (usize, usize))
    requires
        lo <= hi <= chars.len(),
    ensures
        lo <= bounds.0 <= bounds.1 <= hi,
        trimmed(chars@.subrange(lo as int, hi as int)) == chars@.subrange(
            bounds.0 as int,
            bounds.1 as int,
        ),
{
    let ghost part = chars@.subrange(lo as int, hi as int);
    let mut start: usize = lo;
    while start < hi && space(chars[start])
        invariant
            lo <= start <= hi <= chars.len(),
            forall|j: int| lo <= j < start ==> is_space(#[trigger] chars@[j]),
        decreases hi - start,
    {
        start += 1;
    }
    let mut end: usize = hi;
    while end > lo && space(chars[end - 1])
        invariant
            lo <= end <= hi <= chars.len(),
            forall|j: int| end <= j < hi ==> is_space(#[trigger] chars@[j]),
        decreases end,
    {
        end -= 1;
    }
    proof {
        assert forall|j: int| 0 <= j < start - lo implies is_space(#[trigger] part[j]) by {
            assert(part[j] == chars@[lo + j]);
        }
        assert forall|j: int| part.len() - (hi - end) <= j < part.len() implies is_space(
            #[trigger] part[j],
        ) by {
            assert(part[j] == chars@[lo + j]);
        }
        lemma_leading_spaces(part, start - lo);
        lemma_trailing_spaces(part, hi - end);
    }
    if start >= end {
        assert(chars@.subrange(start as int, start as int) =~= Seq::<char>::empty());
        (start, start)
    } else {
        assert(part.subrange(start - lo, end - lo) =~= chars@.subrange(start as int, end as int));
        (start, end)
    }
}

/// The bounds, within `chars`, of the text of the statement.
fn statement_bounds(chars: &Vec<char>) -> (bounds: (usize, usize))
    ensures
        bounds.0 <= bounds.1 <= chars.len(),
        statement_text(chars@) == chars@.subrange(bounds.0 as int, bounds.1 as int),
{
    assert(chars@.subrange(0, chars.len() as int) =~= chars@);
    let outer = trim_bounds(chars, 0, chars.len());
    if outer.1 > outer.0 && chars[outer.1 - 1] == ';' {
        let ghost text = chars@.subrange(outer.0 as int, outer.1 as int);
        assert(text.last() == chars@[outer.1 - 1]);
        assert(text.drop_last() =~= chars@.subrange(outer.0 as int, outer.1 - 1));
        trim_bounds(chars, outer.0, outer.1 - 1)
    } else {
        outer
    }
}

/// Whether `chars`, between the bounds, is `word`, ASCII case ignored.
fn is_word_ignoring_case(chars: &Vec<char>, bounds: (usize, usize), word: &str) -> (r: bool)
    requires
        bounds.0 <= bounds.1 <= chars.len(),
    ensures
        r == same_ignoring_case(chars@.subrange(bounds.0 as int, bounds.1 as int), word@),
{
    let letters = chars_of(word);
    let ghost part = chars@.subrange(bounds.0 as int, bounds.1 as int);
    if bounds.1 - bounds.0 != letters.len() {
        return false;
    }
    let r = reads_word_at(chars, bounds.0, &letters);
    proof {
        if r {
            assert forall|j: int| 0 <= j < letters.len() implies fold_case(#[trigger] part[0 + j])
                == fold_case(letters@[j]) by {
                assert(part[0 + j] == chars@[bounds.0 + j]);
            }
        }
        if reads_at(part, 0, letters@) {
            assert forall|j: int| 0 <= j < letters.len() implies fold_case(
                #[trigger] chars@[bounds.0 + j],
            ) == fold_case(letters@[j]) by {
                assert(part[0 + j] == chars@[bounds.0 + j]);
            }
        }
    }
    r
}

/// Prepares a statement for the SQL engine.
///
/// A statement that defines data is refused with `Unimplemented`. A
/// statement that asks for the transaction isolation level, with or without
/// a closing semicolon, is replaced by a `SELECT` of the literal
/// `read committed`. From any other statement the `::regclass` casts are
/// stripped, and nothing else changes.
pub fn prepare_sql(sql: &str) -> (r: Result<String, TimeFusionError>)
    ensures
        is_ddl(sql@) ==> r is Err && r->Err_0 is Unimplemented,
        !is_ddl(sql@) ==> (r matches Ok(text) && text@ == rewritten(sql@)),
{
    let chars = chars_of(sql);
    if has_first_keyword(&chars, "create") || has_first_keyword(&chars, "alter")
        || has_first_keyword(&chars, "drop") {
        return Err(
            TimeFusionError::Unimplemented(
                String::from_str("statements that define data are not supported"),
            ),
        );
    }
    let bounds = statement_bounds(&chars);
    if is_word_ignoring_case(&chars, bounds, "show transaction isolation level")
        || is_word_ignoring_case(&chars, bounds, "show transaction_isolation") {
        return Ok(String::from_str("SELECT 'read committed' AS transaction_isolation"));
    }
    Ok(remove_all(sql, "::regclass"))
}

} // verus!
