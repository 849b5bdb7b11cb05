//! Compiling a shader text: every compilation gets an import path of its own
//! before the text goes to the shader registry.

use vstd::prelude::*;
use vstd::string::StrSliceExecFns;
use vstd::string::StringExecFns;
use bevy::asset::{Assets, Handle};
use bevy::shader::Shader;
use crate::state::GlobalState;
use crate::util::append_decimal;
use crate::text::{
    contains, directive, import_line, kept_text, lemma_first_newline_is,
    lemma_import_lines_differ, lemma_rewritten_texts_differ, lines_of, occurs_at, rewritten,
    strip_cr, IMPORT_PATH_DIRECTIVE, IMPORT_PATH_PREFIX,
};

verus! {

/// The shader registry of the renderer, borrowed for one update pass: bevy's
/// `Assets<Shader>`. The library sees nothing inside it; what it stores is
/// spoken of through `registered`.
#[verifier::external_body]
pub struct ShaderRegistry<'a> {
    pub assets: &'a mut Assets<Shader>,
}

/// A handle to a compiled shader in the registry: bevy's `Handle<Shader>`.
/// The shader lives as long as a handle to it does. The library sees nothing
/// inside a handle; two handles are equal where they refer to one shader.
#[verifier::external_body]
pub struct ShaderHandle {
    pub handle: Handle<Shader>,
}

/// What a registry stores: the source text of each shader, under the handle
/// that refers to it. Nothing but `register_shader` says anything of it.
pub uninterp spec fn registered(registry: ShaderRegistry) -> Map<ShaderHandle, Seq<char>>;

/// The file name under which the registry files the shaders of this library.
pub const SHADER_FILE: &'static str = "src/shader.rs";

/// Calls `Shader::from_wgsl` and `Assets::add` of bevy: the text becomes a
/// WGSL shader, unvalidated, and the registry stores it as one more asset
/// beside those it held, under an index that it held nothing under. The
/// handle that comes back refers to that asset and keeps it alive.
#[verifier::external_body]
fn register_shader(registry: &mut ShaderRegistry, source: String) -> (handle: ShaderHandle)
    ensures
        !registered(*old(registry)).dom().contains(handle),
        registered(*final(registry)) == registered(*old(registry)).insert(handle, source@),
{
    ShaderHandle { handle: registry.assets.add(Shader::from_wgsl(source, SHADER_FILE)) }
}

/// Calls `Handle::clone` of bevy: the copy refers to the same shader as the
/// handle it was made from.
#[verifier::external_body]
pub(crate) fn clone_handle(handle: &ShaderHandle) -> (copy: ShaderHandle)
    ensures
        copy == *handle,
{
    ShaderHandle { handle: handle.handle.clone() }
}

/// The characters of a text.
pub fn chars_of(s: &str) -> (v: Vec<char>)
    ensures
        v@ == s@,
{
    let mut v: Vec<char> = Vec::new();
    for c in it: s.chars()
        invariant
            v@ == it.seq().take(it.index() as int),
            it.seq() == s@,
    {
        v.push(c);
    }
    v
}

/// The line that declares the import path of compilation number `id`.
pub fn import_line_of(id: u32) -> (line: String)
    ensures
        line@ == import_line(id as nat),
{
    let mut line = IMPORT_PATH_DIRECTIVE.to_owned();
    line.append(IMPORT_PATH_PREFIX);
    append_decimal(&mut line, id as u128);
    line
}

/// Whether `needle` stands in the part of `text` from `from` up to `to`.
pub fn range_contains(text: &Vec<char>, from: usize, to: usize, needle: &Vec<char>) -> (found:
    bool)
    requires
        from <= to <= text.len(),
    ensures
        found == contains(text@.subrange(from as int, to as int), needle@),
{
    let ghost line = text@.subrange(from as int, to as int);
    let m = needle.len();
    if to - from < m {
        return false;
    }
    let last: usize = to - m;
    let mut i: usize = from;
    while i <= last
        invariant
            from <= i <= last + 1,
            last + m == to,
            to <= text.len(),
            m == needle.len(),
            line == text@.subrange(from as int, to as int),
            forall|p: int| 0 <= p < i - from ==> !occurs_at(line, needle@, p),
        decreases last + 1 - i,
    {
        let mut j: usize = 0;
        while j < m && text[i + j] == needle[j]
            invariant
                j <= m,
                i + m <= to,
                to <= text.len(),
                m == needle.len(),
                forall|q: int| 0 <= q < j ==> text[i + q] == needle[q],
            decreases m - j,
        {
            j += 1;
        }
        if j == m {
            proof {
                let p = i - from;
                assert(line.subrange(p, p + needle@.len()) =~= needle@);
                assert(occurs_at(line, needle@, p));
            }
            return true;
        }
        proof {
            let p = i - from;
            assert(line.subrange(p, p + needle@.len())[j as int] == text[i + j]);
        }
        i += 1;
    }
    false
}

/// Gives a shader text an import path of its own. The text that comes back
/// starts with the import line of a fresh compilation number; the lines of
/// `code` follow, each closed by a line feed, but for those that declare an
/// import path themselves.
pub fn add_unique_shader_import_path(code: &str, global_state: &mut GlobalState) -> (result:
    String)
    requires
        old(global_state).shader_counter() < u32::MAX,
    ensures
        result@ == rewritten(old(global_state).shader_counter() as nat, code@),
        final(global_state).shader_counter() == old(global_state).shader_counter() + 1,
        final(global_state).same_but_shader_counter(old(global_state)),
{
    let id = global_state.create_shader();
    let text = chars_of(code);
    let needle = chars_of(IMPORT_PATH_DIRECTIVE);
    let mut result = import_line_of(id);
    proof {
        reveal_strlit("\n");
        assert("\n"@ =~= seq!['\n']);
    }
    result.append("\n");
    let n = text.len();
    let mut start: usize = 0;
    assert(text@.skip(0) =~= text@);
    while start < n
        invariant
            start <= n,
            n == text.len(),
            text@ == code@,
            needle@ == directive(),
            "\n"@ == seq!['\n'],
            result@ + kept_text(lines_of(text@.skip(start as int))) == rewritten(
                id as nat,
                code@,
            ),
        decreases n - start,
    {
        let mut end: usize = start;
        while end < n && text[end] != '\n'
            invariant
                start <= end <= n,
                n == text.len(),
                forall|j: int| start <= j < end ==> text[j] != '\n',
            decreases n - end,
        {
            end += 1;
        }
        let terminated = end < n;
        let line_end: usize = if terminated && end > start && text[end - 1] == '\r' {
            end - 1
        } else {
            end
        };
        let next: usize = if terminated {
            end + 1
        } else {
            end
        };
        let ghost line = text@.subrange(start as int, line_end as int);
        let ghost rest = lines_of(text@.skip(next as int));
        let ghost before = result@;
        proof {
            let s = text@.skip(start as int);
            let k = end - start;
            lemma_first_newline_is(s, k);
            if terminated {
                assert(s.take(k) =~= text@.subrange(start as int, end as int));
                assert(strip_cr(s.take(k)) =~= line);
                assert(s.skip(k + 1) =~= text@.skip(next as int));
            } else {
                assert(s =~= line);
                assert(rest =~= Seq::<Seq<char>>::empty());
            }
            assert(lines_of(s) =~= seq![line] + rest);
            assert(lines_of(s)[0] == line);
            assert(lines_of(s).drop_first() =~= rest);
        }
        if !range_contains(&text, start, line_end, &needle) {
            result.append(code.substring_char(start, line_end));
            result.append("\n");
            assert(result@ + kept_text(rest) =~= before + (line + seq!['\n'] + kept_text(rest)));
        }
        start = next;
    }
    assert(text@.skip(n as int) =~= Seq::<char>::empty());
    assert(result@ + Seq::<char>::empty() =~= result@);
    result
}

/// Compiles a shader text: gives it an import path of its own and hands it
/// to the registry. The handle to the compiled shader comes back.
pub fn create_shader(
    shaders: &mut ShaderRegistry,
    global_state: &mut GlobalState,
    code: &str,
) -> (handle: ShaderHandle)
    requires
        old(global_state).shader_counter() < u32::MAX,
    ensures
        !registered(*old(shaders)).dom().contains(handle),
        registered(*final(shaders)) == registered(*old(shaders)).insert(
            handle,
            rewritten(old(global_state).shader_counter() as nat, code@),
        ),
        final(global_state).shader_counter() == old(global_state).shader_counter() + 1,
        final(global_state).same_but_shader_counter(old(global_state)),
{
    let source = add_unique_shader_import_path(code, global_state);
    register_shader(shaders, source)
}

/// Whether `handles` are the handles of a run of compilations that starts
/// at number `start` and takes the texts `codes` in turn, where `stores[k]`
/// is what the registry stores before compilation `k` of the run and
/// `stores[k + 1]` what it stores after it: each step is as `create_shader`
/// says.
pub open spec fn is_run(
    start: nat,
    codes: Seq<Seq<char>>,
    stores: Seq<Map<ShaderHandle, Seq<char>>>,
    handles: Seq<ShaderHandle>,
) -> bool {
    &&& handles.len() == codes.len()
    &&& stores.len() == codes.len() + 1
    &&& forall|k: int|
        0 <= k < codes.len() ==> !(#[trigger] stores[k]).dom().contains(handles[k]) && stores[k
            + 1] == stores[k].insert(handles[k], rewritten(start + k as nat, codes[k]))
}

/// A handle of a run stays in the registry for the rest of the run.
pub proof fn lemma_run_keeps_handles(
    start: nat,
    codes: Seq<Seq<char>>,
    stores: Seq<Map<ShaderHandle, Seq<char>>>,
    handles: Seq<ShaderHandle>,
    i: int,
    m: int,
)
    requires
        is_run(start, codes, stores, handles),
        0 <= i < m <= codes.len(),
    ensures
        stores[m].dom().contains(handles[i]),
    decreases m - i,
{
    assert(stores[m] == stores[m - 1].insert(
        handles[m - 1],
        rewritten(start + (m - 1) as nat, codes[m - 1]),
    ));
    if m > i + 1 {
        lemma_run_keeps_handles(start, codes, stores, handles, i, m - 1);
    }
}

/// In a run of compilations, however long and whatever the texts, no two
/// compilations give the same handle, nor hand the same text to the registry.
pub proof fn lemma_compilations_of_a_run_differ(
    start: nat,
    codes: Seq<Seq<char>>,
    stores: Seq<Map<ShaderHandle, Seq<char>>>,
    handles: Seq<ShaderHandle>,
    i: int,
    j: int,
)
    requires
        is_run(start, codes, stores, handles),
        0 <= i < j < codes.len(),
    ensures
        handles[i] != handles[j],
        rewritten(start + i as nat, codes[i]) != rewritten(start + j as nat, codes[j]),
        import_line(start + i as nat) != import_line(start + j as nat),
{
    lemma_run_keeps_handles(start, codes, stores, handles, i, j);
    assert(!stores[j].dom().contains(handles[j]));
    lemma_rewritten_texts_differ(start + i as nat, codes[i], start + j as nat, codes[j]);
    lemma_import_lines_differ(start + i as nat, start + j as nat);
}

} // verus!
