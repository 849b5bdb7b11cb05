//! Shader source as text: its lines, the import-path directive, and the
//! rewrite that gives every compilation an import path of its own.

use vstd::prelude::*;

verus! {

/// The word that declares a shader module's import path.
pub const IMPORT_PATH_DIRECTIVE: &'static str = "#define_import_path";

/// The module path under which every compiled shader is filed, up to its number.
pub const IMPORT_PATH_PREFIX: &'static str = " smud_demo::temp::shader_";

/// The directive as a sequence of characters.
pub open spec fn directive() -> Seq<char> {
    IMPORT_PATH_DIRECTIVE@
}

/// The character of a decimal digit.
pub open spec fn digit_char(d: nat) -> char {
    if d == 0 {
        '0'
    } else if d == 1 {
        '1'
    } else if d == 2 {
        '2'
    } else if d == 3 {
        '3'
    } else if d == 4 {
        '4'
    } else if d == 5 {
        '5'
    } else if d == 6 {
        '6'
    } else if d == 7 {
        '7'
    } else if d == 8 {
        '8'
    } else {
        '9'
    }
}

/// A number in decimal, without leading zeros.
pub open spec fn decimal(n: nat) -> Seq<char>
    decreases n,
{
    if n < 10 {
        seq![digit_char(n)]
    } else {
        decimal(n / 10).push(digit_char(n % 10))
    }
}

/// The line that declares the import path of compilation number `id`,
/// without its line end.
pub open spec fn import_line(id: nat) -> Seq<char> {
    directive() + IMPORT_PATH_PREFIX@ + decimal(id)
}

/// Where the first line feed of `s` stands; the length of `s` if it has none.
pub open spec fn first_newline(s: Seq<char>) -> int
    decreases s.len(),
{
    if s.len() == 0 || s[0] == '\n' {
        0
    } else {
        1 + first_newline(s.skip(1))
    }
}

/// A line without the carriage return that stood before its line feed.
pub open spec fn strip_cr(line: Seq<char>) -> Seq<char> {
    if line.len() > 0 && line.last() == '\r' {
        line.drop_last()
    } else {
        line
    }
}

/// The lines of a text. A line ends at a line feed, or at a carriage return
/// directly before one; neither belongs to the line. What follows the last
/// line feed is a line if it is not empty, and keeps a carriage return at its
/// end.
pub open spec fn lines_of(s: Seq<char>) -> Seq<Seq<char>>
    decreases s.len(),
{
    let k = first_newline(s);
    if s.len() == 0 {
        Seq::empty()
    } else if k < 0 || k >= s.len() {
        seq![s]
    } else {
        seq![strip_cr(s.take(k))] + lines_of(s.skip(k + 1))
    }
}

/// Whether `needle` stands in `line` at position `i`.
pub open spec fn occurs_at(line: Seq<char>, needle: Seq<char>, i: int) -> bool {
    &&& 0 <= i
    &&& i + needle.len() <= line.len()
    &&& line.subrange(i, i + needle.len()) == needle
}

/// Whether `needle` stands somewhere in `line`.
pub open spec fn contains(line: Seq<char>, needle: Seq<char>) -> bool {
    exists|i: int| occurs_at(line, needle, i)
}

/// Whether a line declares an import path.
pub open spec fn has_directive(line: Seq<char>) -> bool {
    contains(line, directive())
}

/// Whether a sequence of characters is free of line feeds.
pub open spec fn no_newline(s: Seq<char>) -> bool {
    forall|j: int| 0 <= j < s.len() ==> s[j] != '\n'
}

/// The lines that declare no import path, each followed by a line feed.
pub open spec fn kept_text(lines: Seq<Seq<char>>) -> Seq<char>
    decreases lines.len(),
{
    if lines.len() == 0 {
        Seq::empty()
    } else if has_directive(lines[0]) {
        kept_text(lines.drop_first())
    } else {
        lines[0] + seq!['\n'] + kept_text(lines.drop_first())
    }
}

/// The text that is handed to the shader registry for compilation number
/// `id` of the source `code`: the fresh import line first, then every line of
/// `code` that declares no import path.
pub open spec fn rewritten(id: nat, code: Seq<char>) -> Seq<char> {
    import_line(id) + seq!['\n'] + kept_text(lines_of(code))
}

/// What holds of the position that `first_newline` gives.
pub proof fn lemma_first_newline(s: Seq<char>)
    ensures
        0 <= first_newline(s) <= s.len(),
        no_newline(s.take(first_newline(s))),
        first_newline(s) < s.len() ==> s[first_newline(s)] == '\n',
    decreases s.len(),
{
    if s.len() == 0 || s[0] == '\n' {
    } else {
        let t = s.skip(1);
        lemma_first_newline(t);
        let k = first_newline(s);
        assert forall|j: int| 0 <= j < s.take(k).len() implies s.take(k)[j] != '\n' by {
            if j > 0 {
                assert(t.take(k - 1)[j - 1] == s.take(k)[j]);
            }
        }
    }
}

/// A position with no line feed before it, and one on it or the end of the
/// text, is the one that `first_newline` gives.
pub proof fn lemma_first_newline_is(s: Seq<char>, k: int)
    requires
        0 <= k <= s.len(),
        forall|j: int| 0 <= j < k ==> s[j] != '\n',
        k < s.len() ==> s[k] == '\n',
    ensures
        first_newline(s) == k,
    decreases k,
{
    if k > 0 {
        let t = s.skip(1);
        assert forall|j: int| 0 <= j < k - 1 implies t[j] != '\n' by {
            assert(t[j] == s[j + 1]);
        }
        lemma_first_newline_is(t, k - 1);
    }
}

/// A line, its line feed and a rest split into that line, without its
/// carriage return, and the lines of the rest.
pub proof fn lemma_lines_of_line_then_rest(line: Seq<char>, rest: Seq<char>)
    requires
        no_newline(line),
    ensures
        lines_of(line + seq!['\n'] + rest) == seq![strip_cr(line)] + lines_of(rest),
{
    let s = line + seq!['\n'] + rest;
    let k = line.len() as int;
    assert(s[k] == '\n');
    assert forall|j: int| 0 <= j < k implies s[j] != '\n' by {
        assert(s[j] == line[j]);
    }
    lemma_first_newline_is(s, k);
    assert(s.take(k) =~= line);
    assert(s.skip(k + 1) =~= rest);
}

/// No line of a text holds a line feed.
pub proof fn lemma_lines_have_no_newline(s: Seq<char>)
    ensures
        forall|i: int| 0 <= i < lines_of(s).len() ==> no_newline(#[trigger] lines_of(s)[i]),
    decreases s.len(),
{
    lemma_first_newline(s);
    let k = first_newline(s);
    if s.len() == 0 {
    } else if k >= s.len() {
        assert(s.take(k) =~= s);
    } else {
        let rest = s.skip(k + 1);
        lemma_lines_have_no_newline(rest);
        let head = strip_cr(s.take(k));
        assert(no_newline(head)) by {
            assert forall|j: int| 0 <= j < head.len() implies head[j] != '\n' by {
                assert(head[j] == s.take(k)[j]);
            }
        }
        assert forall|i: int| 0 <= i < lines_of(s).len() implies no_newline(
            #[trigger] lines_of(s)[i],
        ) by {
            if i > 0 {
                assert(lines_of(s)[i] == lines_of(rest)[i - 1]);
            }
        }
    }
}

/// What stands in the beginning of a line stands in the line.
pub proof fn lemma_contains_in_prefix(line: Seq<char>, k: int, needle: Seq<char>)
    requires
        0 <= k <= line.len(),
        contains(line.take(k), needle),
    ensures
        contains(line, needle),
{
    let i = choose|i: int| occurs_at(line.take(k), needle, i);
    assert(line.subrange(i, i + needle.len()) =~= line.take(k).subrange(i, i + needle.len()));
    assert(occurs_at(line, needle, i));
}

/// Splitting the kept lines again gives no line that declares an import path.
pub proof fn lemma_kept_text_has_no_directive(lines: Seq<Seq<char>>)
    requires
        forall|i: int| 0 <= i < lines.len() ==> no_newline(#[trigger] lines[i]),
    ensures
        forall|j: int|
            0 <= j < lines_of(kept_text(lines)).len() ==> !has_directive(
                #[trigger] lines_of(kept_text(lines))[j],
            ),
    decreases lines.len(),
{
    if lines.len() > 0 {
        let tail = lines.drop_first();
        assert forall|i: int| 0 <= i < tail.len() implies no_newline(#[trigger] tail[i]) by {
            assert(tail[i] == lines[i + 1]);
        }
        lemma_kept_text_has_no_directive(tail);
        if !has_directive(lines[0]) {
            let line = lines[0];
            lemma_lines_of_line_then_rest(line, kept_text(tail));
            let out = lines_of(kept_text(lines));
            assert(out == seq![strip_cr(line)] + lines_of(kept_text(tail)));
            if has_directive(strip_cr(line)) {
                if line.len() > 0 && line.last() == '\r' {
                    assert(line.drop_last() =~= line.take(line.len() - 1));
                    lemma_contains_in_prefix(line, line.len() - 1, directive());
                }
            }
            assert forall|j: int| 0 <= j < out.len() implies !has_directive(#[trigger] out[j]) by {
                if j > 0 {
                    assert(out[j] == lines_of(kept_text(tail))[j - 1]);
                }
            }
        }
    }
}

/// Every character of a number in decimal is a digit.
pub proof fn lemma_decimal_digits(n: nat)
    ensures
        decimal(n).len() >= 1,
        n >= 10 ==> decimal(n).len() >= 2,
        forall|j: int| 0 <= j < decimal(n).len() ==> '0' <= #[trigger] decimal(n)[j] <= '9',
    decreases n,
{
    if n >= 10 {
        lemma_decimal_digits(n / 10);
    }
}

/// Two digits with the same character are one digit.
pub proof fn lemma_digit_injective(x: nat, y: nat)
    requires
        x < 10,
        y < 10,
        digit_char(x) == digit_char(y),
    ensures
        x == y,
{
}

/// Two numbers that read the same in decimal are one number.
pub proof fn lemma_decimal_injective(a: nat, b: nat)
    requires
        decimal(a) == decimal(b),
    ensures
        a == b,
    decreases a,
{
    lemma_decimal_digits(a);
    lemma_decimal_digits(b);
    if a < 10 && b < 10 {
        assert(decimal(a)[0] == digit_char(a));
        assert(decimal(b)[0] == digit_char(b));
        lemma_digit_injective(a, b);
    } else if a >= 10 && b >= 10 {
        assert(decimal(a).last() == digit_char(a % 10));
        assert(decimal(b).last() == digit_char(b % 10));
        lemma_digit_injective(a % 10, b % 10);
        assert(decimal(a).drop_last() =~= decimal(a / 10));
        assert(decimal(b).drop_last() =~= decimal(b / 10));
        lemma_decimal_injective(a / 10, b / 10);
        assert(a == 10 * (a / 10) + a % 10);
        assert(b == 10 * (b / 10) + b % 10);
    } else {
        assert(decimal(a).len() != decimal(b).len());
    }
}

/// The import line of a compilation is one line: it declares an import path,
/// holds no line feed and ends in a digit.
pub proof fn lemma_import_line(id: nat)
    ensures
        has_directive(import_line(id)),
        no_newline(import_line(id)),
        strip_cr(import_line(id)) == import_line(id),
{
    reveal_strlit("#define_import_path");
    reveal_strlit(" smud_demo::temp::shader_");
    lemma_decimal_digits(id);
    let line = import_line(id);
    let d = directive();
    let p = IMPORT_PATH_PREFIX@;
    assert(line.subrange(0, 0 + d.len() as int) =~= d);
    assert(occurs_at(line, d, 0));
    assert forall|j: int| 0 <= j < line.len() implies line[j] != '\n' by {
        if j < d.len() {
            assert(line[j] == d[j]);
        } else if j < d.len() + p.len() {
            assert(line[j] == p[j - d.len()]);
        } else {
            assert(line[j] == decimal(id)[j - d.len() - p.len()]);
        }
    }
    assert(line.last() == decimal(id).last());
}

/// Two compilations with different numbers have different import lines.
pub proof fn lemma_import_lines_differ(a: nat, b: nat)
    requires
        a != b,
    ensures
        import_line(a) != import_line(b),
{
    if import_line(a) == import_line(b) {
        let n = (directive() + IMPORT_PATH_PREFIX@).len() as int;
        assert(import_line(a).skip(n) =~= decimal(a));
        assert(import_line(b).skip(n) =~= decimal(b));
        lemma_decimal_injective(a, b);
    }
}

/// In a run of compilations that starts at number `start`, no two have the
/// same import line.
pub proof fn lemma_import_lines_of_a_run_differ(start: nat, i: nat, j: nat)
    requires
        i != j,
    ensures
        import_line(start + i) != import_line(start + j),
{
    lemma_import_lines_differ(start + i, start + j);
}

/// The rewritten text begins with the fresh import line, and no other line of
/// it declares an import path, whatever the source held.
pub proof fn lemma_rewritten_has_one_import_line(id: nat, code: Seq<char>)
    ensures
        lines_of(rewritten(id, code)).len() >= 1,
        lines_of(rewritten(id, code))[0] == import_line(id),
        has_directive(lines_of(rewritten(id, code))[0]),
        forall|i: int|
            1 <= i < lines_of(rewritten(id, code)).len() ==> !has_directive(
                #[trigger] lines_of(rewritten(id, code))[i],
            ),
{
    let kept = kept_text(lines_of(code));
    lemma_import_line(id);
    lemma_lines_of_line_then_rest(import_line(id), kept);
    lemma_lines_have_no_newline(code);
    lemma_kept_text_has_no_directive(lines_of(code));
    let out = lines_of(rewritten(id, code));
    assert(out == seq![import_line(id)] + lines_of(kept));
    assert forall|i: int| 1 <= i < out.len() implies !has_directive(#[trigger] out[i]) by {
        assert(out[i] == lines_of(kept)[i - 1]);
    }
}

/// Compilations with different numbers hand different texts to the registry,
/// also where their sources are the same.
pub proof fn lemma_rewritten_texts_differ(a: nat, code_a: Seq<char>, b: nat, code_b: Seq<char>)
    requires
        a != b,
    ensures
        rewritten(a, code_a) != rewritten(b, code_b),
{
    lemma_rewritten_has_one_import_line(a, code_a);
    lemma_rewritten_has_one_import_line(b, code_b);
    lemma_import_lines_differ(a, b);
}

} // verus!
