//! The catalogue of starter texts, one list for each shader role.

use vstd::prelude::*;
use vstd::utf8::{decode_utf8, valid_utf8};
use include_dir::{Dir, File};
use crate::consts::{DEFAULT_FILL_TEMPLATE, DEFAULT_SDF_TEMPLATE};
use crate::state::ShaderKind;

verus! {

/// `File` of include_dir, a bundled file. The library sees nothing inside it;
/// what it holds is spoken of through `file_stem` and `file_contents`.
#[verifier::external_type_specification]
#[verifier::external_body]
pub struct ExFile<'a>(File<'a>);

/// `Dir` of include_dir, a bundled directory. The library sees nothing inside
/// it; what it holds is spoken of through `dir_files`.
#[verifier::external_type_specification]
#[verifier::external_body]
pub struct ExDir<'a>(Dir<'a>);

/// The stem of a bundled file: the file name in its path without the last
/// extension, as `Path::file_stem` of std reads the path that `File::path`
/// gives; nothing if the path has no file name.
pub uninterp spec fn file_stem(file: File) -> Option<Seq<char>>;

/// The bytes that a bundled file holds.
pub uninterp spec fn file_contents(file: File) -> Seq<u8>;

/// What a bundled directory holds: of each file that lies directly in it, in
/// the directory's order, the stem and the bytes.
pub uninterp spec fn dir_files(dir: Dir) -> Seq<(Option<Seq<char>>, Seq<u8>)>;

/// A text that was read, or its absence, as characters.
pub open spec fn text_view(text: Option<String>) -> Option<Seq<char>> {
    match text {
        Some(read) => Some(read@),
        None => None,
    }
}

/// The text that bytes encode: their characters if they are valid UTF-8,
/// nothing otherwise.
pub open spec fn utf8_text(contents: Seq<u8>) -> Option<Seq<char>> {
    if valid_utf8(contents) {
        Some(decode_utf8(contents))
    } else {
        None
    }
}

/// Calls `Dir::files` of include_dir: the files that lie directly in a
/// directory, in the order in which the directory lists them.
#[verifier::external_body]
fn files_of<'a>(dir: &Dir<'a>) -> (files: Vec<&'a File<'a>>)
    ensures
        files.len() == dir_files(*dir).len(),
        forall|i: int|
            0 <= i < files.len() ==> file_stem(*#[trigger] files[i]) == dir_files(*dir)[i].0
                && file_contents(*files[i]) == dir_files(*dir)[i].1,
{
    dir.files().collect()
}

/// Calls `File::path` of include_dir and `Path::file_stem` of std: the
/// file's name without its last extension, if the path has a file name.
#[verifier::external_body]
fn stem_of(file: &File) -> (stem: Option<String>)
    ensures
        text_view(stem) == file_stem(*file),
{
    match file.path().file_stem() {
        Some(stem) => Some(stem.to_string_lossy().into_owned()),
        None => None,
    }
}

/// Calls `File::contents_utf8` of include_dir: the file's contents as text,
/// if they are valid UTF-8, and nothing if they are not.
#[verifier::external_body]
fn text_of(file: &File) -> (text: Option<String>)
    ensures
        text_view(text) == utf8_text(file_contents(*file)),
{
    match file.contents_utf8() {
        Some(text) => Some(text.to_owned()),
        None => None,
    }
}

/// A starter text under its name.
pub struct Template {
    pub name: String,
    pub code: String,
}

impl Template {
    /// The template that a bundled file holds: named by the file's stem, with
    /// the file's contents as its text. The file must hold one: it has a
    /// stem, and its contents are valid UTF-8.
    pub fn new(file: &File) -> (template: Template)
        requires
            is_readable(file_stem(*file), file_contents(*file)),
        ensures
            template.holds(file_stem(*file), file_contents(*file)),
    {
        let name = stem_of(file).unwrap();
        let code = text_of(file).unwrap();
        Template { name, code }
    }

    /// The template that a bundled file holds, if it holds one; nothing for
    /// a file without a stem or with contents that are not valid UTF-8.
    pub fn try_new(file: &File) -> (template: Option<Template>)
        ensures
            match template {
                Some(read) => read.holds(file_stem(*file), file_contents(*file)),
                None => !is_readable(file_stem(*file), file_contents(*file)),
            },
    {
        if has_template(file) {
            Some(Template::new(file))
        } else {
            None
        }
    }

    /// Whether this is the template of a file with the given stem and
    /// bytes: named by the stem, with the text that the bytes encode.
    pub open spec fn holds(&self, stem: Option<Seq<char>>, contents: Seq<u8>) -> bool {
        &&& stem == Some(self.name@)
        &&& utf8_text(contents) == Some(self.code@)
    }
}

/// Whether a file with the given stem and bytes holds a template: it has a
/// stem, and its bytes are valid UTF-8.
pub open spec fn is_readable(stem: Option<Seq<char>>, contents: Seq<u8>) -> bool {
    stem is Some && valid_utf8(contents)
}

/// Whether every one of the files holds a template.
pub open spec fn all_readable(files: Seq<(Option<Seq<char>>, Seq<u8>)>) -> bool {
    forall|i: int| 0 <= i < files.len() ==> is_readable((#[trigger] files[i]).0, files[i].1)
}

/// Whether a bundled file holds a template.
pub fn has_template(file: &File) -> (readable: bool)
    ensures
        readable == is_readable(file_stem(*file), file_contents(*file)),
{
    stem_of(file).is_some() && text_of(file).is_some()
}

/// Whether `templates` are the templates of `files`, one for each file and
/// in the order of the files.
pub open spec fn are_templates_of(
    templates: Seq<Template>,
    files: Seq<(Option<Seq<char>>, Seq<u8>)>,
) -> bool {
    &&& templates.len() == files.len()
    &&& forall|i: int|
        0 <= i < files.len() ==> (#[trigger] templates[i]).holds(files[i].0, files[i].1)
}

/// Whether `i` is the first place in `templates` of a template called `name`.
pub open spec fn is_first_named(templates: Seq<Template>, name: Seq<char>, i: int) -> bool {
    &&& 0 <= i < templates.len()
    &&& templates[i].name@ == name
    &&& forall|j: int| 0 <= j < i ==> templates[j].name@ != name
}

/// Whether `found` is what a search for the first template called `name`
/// gives: its place, or nothing if no template has that name.
pub open spec fn is_position_named(
    templates: Seq<Template>,
    name: Seq<char>,
    found: Option<usize>,
) -> bool {
    match found {
        Some(i) => is_first_named(templates, name, i as int),
        None => forall|j: int| 0 <= j < templates.len() ==> templates[j].name@ != name,
    }
}

/// Whether `found` is what a search by name gives: the first template
/// called `name`, or nothing if no template has that name.
pub open spec fn is_found_by_name(
    templates: Seq<Template>,
    name: Seq<char>,
    found: Option<Template>,
) -> bool {
    match found {
        Some(template) => exists|i: int|
            is_first_named(templates, name, i) && templates[i] == template,
        None => forall|j: int| 0 <= j < templates.len() ==> templates[j].name@ != name,
    }
}

/// The name of the template that a new shape starts from, for each role.
pub open spec fn default_name(shader: ShaderKind) -> Seq<char> {
    match shader {
        ShaderKind::Sdf => DEFAULT_SDF_TEMPLATE@,
        ShaderKind::Fill => DEFAULT_FILL_TEMPLATE@,
    }
}

/// The place of the first template called `name`.
pub fn position_named(templates: &Vec<Template>, name: &str) -> (found: Option<usize>)
    ensures
        is_position_named(templates@, name@, found),
{
    let wanted = name.to_owned();
    let mut i: usize = 0;
    while i < templates.len()
        invariant
            i <= templates.len(),
            wanted@ == name@,
            forall|j: int| 0 <= j < i ==> templates[j].name@ != name@,
        decreases templates.len() - i,
    {
        if templates[i].name == wanted {
            return Some(i);
        }
        i += 1;
    }
    None
}

/// The starter texts of both roles, and which of them a new shape gets.
pub struct Templates {
    sdf: Vec<Template>,
    fill: Vec<Template>,
    default_sdf: Option<usize>,
    default_fill: Option<usize>,
}

impl Templates {
    /// The templates of a role, in the order in which they were given.
    pub closed spec fn templates(&self, shader: ShaderKind) -> Seq<Template> {
        match shader {
            ShaderKind::Sdf => self.sdf@,
            ShaderKind::Fill => self.fill@,
        }
    }

    /// The place of a role's default template among its templates.
    pub closed spec fn default_index(&self, shader: ShaderKind) -> Option<usize> {
        match shader {
            ShaderKind::Sdf => self.default_sdf,
            ShaderKind::Fill => self.default_fill,
        }
    }

    /// What holds of every catalogue: the default of each role is the first
    /// template that has the role's default name.
    #[verifier::type_invariant]
    pub open spec fn wf(&self) -> bool {
        forall|shader: ShaderKind|
            is_position_named(
                #[trigger] self.templates(shader),
                default_name(shader),
                self.default_index(shader),
            )
    }

    /// The default template of a role, if there is one.
    pub open spec fn default_of(&self, shader: ShaderKind) -> Option<Template> {
        match self.default_index(shader) {
            Some(i) if i < self.templates(shader).len() => Some(self.templates(shader)[i as int]),
            _ => None,
        }
    }

    /// The text that a new shape gets for a role: that of the role's default
    /// template, or nothing where there is none.
    pub open spec fn default_code(&self, shader: ShaderKind) -> Seq<char> {
        match self.default_of(shader) {
            Some(template) => template.code@,
            None => Seq::empty(),
        }
    }

    /// In a well-formed catalogue the default of a role is the first
    /// template that has the role's default name, and there is none exactly
    /// if no template has that name.
    pub proof fn lemma_default_is_first_named(&self, shader: ShaderKind)
        requires
            self.wf(),
        ensures
            is_found_by_name(
                self.templates(shader),
                default_name(shader),
                self.default_of(shader),
            ),
    {
        let all = self.templates(shader);
        assert(is_position_named(all, default_name(shader), self.default_index(shader)));
        if let Some(i) = self.default_index(shader) {
            assert(is_first_named(all, default_name(shader), i as int));
        }
    }

    /// A catalogue of the given templates.
    pub fn new(sdf: Vec<Template>, fill: Vec<Template>) -> (catalogue: Templates)
        ensures
            catalogue.wf(),
            catalogue.templates(ShaderKind::Sdf) == sdf@,
            catalogue.templates(ShaderKind::Fill) == fill@,
    {
        let default_sdf = position_named(&sdf, DEFAULT_SDF_TEMPLATE);
        let default_fill = position_named(&fill, DEFAULT_FILL_TEMPLATE);
        Templates { sdf, fill, default_sdf, default_fill }
    }

    /// The templates of a role.
    pub fn all_templates(&self, shader: ShaderKind) -> (all: &[Template])
        ensures
            all@ == self.templates(shader),
            self.wf(),
    {
        proof {
            use_type_invariant(self);
        }
        match shader {
            ShaderKind::Sdf => self.sdf.as_slice(),
            ShaderKind::Fill => self.fill.as_slice(),
        }
    }

    /// The default template of a role: the first template that has the
    /// role's default name, or nothing if no template has that name.
    pub fn default_template(&self, shader: ShaderKind) -> (template: Option<&Template>)
        ensures
            template == (match self.default_of(shader) {
                Some(found) => Some(&found),
                None => None::<&Template>,
            }),
            is_found_by_name(
                self.templates(shader),
                default_name(shader),
                self.default_of(shader),
            ),
            self.wf(),
    {
        proof {
            use_type_invariant(self);
            self.lemma_default_is_first_named(shader);
        }
        let (all, index) = match shader {
            ShaderKind::Sdf => (&self.sdf, self.default_sdf),
            ShaderKind::Fill => (&self.fill, self.default_fill),
        };
        assert(all@ == self.templates(shader));
        assert(index == self.default_index(shader));
        match index {
            Some(i) => {
                if i < all.len() {
                    Some(&all[i])
                } else {
                    None
                }
            },
            None => None,
        }
    }
}

/// Whether every file that lies directly in a bundled directory holds a
/// template.
pub fn can_load(dir: &Dir) -> (readable: bool)
    ensures
        readable == all_readable(dir_files(*dir)),
{
    let files = files_of(dir);
    let mut i: usize = 0;
    while i < files.len()
        invariant
            i <= files.len(),
            files.len() == dir_files(*dir).len(),
            forall|j: int|
                0 <= j < files.len() ==> file_stem(*#[trigger] files[j]) == dir_files(*dir)[j].0
                    && file_contents(*files[j]) == dir_files(*dir)[j].1,
            forall|j: int|
                0 <= j < i ==> is_readable(
                    (#[trigger] dir_files(*dir)[j]).0,
                    dir_files(*dir)[j].1,
                ),
        decreases files.len() - i,
    {
        if !has_template(files[i]) {
            assert(!is_readable(dir_files(*dir)[i as int].0, dir_files(*dir)[i as int].1));
            return false;
        }
        i += 1;
    }
    true
}

/// The templates that the files of a bundled directory hold, in the
/// directory's order. Every file must hold one: it has a stem, and its
/// contents are valid UTF-8.
pub fn load_templates(dir: &Dir) -> (templates: Vec<Template>)
    requires
        all_readable(dir_files(*dir)),
    ensures
        are_templates_of(templates@, dir_files(*dir)),
{
    let files = files_of(dir);
    let mut templates: Vec<Template> = Vec::new();
    let mut i: usize = 0;
    while i < files.len()
        invariant
            i <= files.len(),
            templates.len() == i,
            all_readable(dir_files(*dir)),
            files.len() == dir_files(*dir).len(),
            forall|j: int|
                0 <= j < files.len() ==> file_stem(*#[trigger] files[j]) == dir_files(*dir)[j].0
                    && file_contents(*files[j]) == dir_files(*dir)[j].1,
            forall|j: int|
                0 <= j < i ==> (#[trigger] templates[j]).holds(
                    dir_files(*dir)[j].0,
                    dir_files(*dir)[j].1,
                ),
        decreases files.len() - i,
    {
        assert(is_readable(dir_files(*dir)[i as int].0, dir_files(*dir)[i as int].1));
        templates.push(Template::new(files[i]));
        i += 1;
    }
    templates
}

impl Templates {
    /// The catalogue of two bundled directories, one for each role: the
    /// templates of their files, with the defaults found by name. Every file
    /// of both directories must hold a template.
    pub fn load(sdf: &Dir, fill: &Dir) -> (catalogue: Templates)
        requires
            all_readable(dir_files(*sdf)),
            all_readable(dir_files(*fill)),
        ensures
            catalogue.wf(),
            are_templates_of(catalogue.templates(ShaderKind::Sdf), dir_files(*sdf)),
            are_templates_of(catalogue.templates(ShaderKind::Fill), dir_files(*fill)),
    {
        Templates::new(load_templates(sdf), load_templates(fill))
    }

    /// The catalogue of two bundled directories, if every file of both holds
    /// a template; nothing if one has no stem or is not valid UTF-8.
    pub fn try_load(sdf: &Dir, fill: &Dir) -> (catalogue: Option<Templates>)
        ensures
            match catalogue {
                Some(loaded) => {
                    &&& loaded.wf()
                    &&& are_templates_of(loaded.templates(ShaderKind::Sdf), dir_files(*sdf))
                    &&& are_templates_of(loaded.templates(ShaderKind::Fill), dir_files(*fill))
                },
                None => !all_readable(dir_files(*sdf)) || !all_readable(dir_files(*fill)),
            },
    {
        if can_load(sdf) && can_load(fill) {
            Some(Templates::load(sdf, fill))
        } else {
            None
        }
    }
}

/// Templates can be had of files exactly if every file holds one.
pub proof fn lemma_templates_need_readable_files(
    templates: Seq<Template>,
    files: Seq<(Option<Seq<char>>, Seq<u8>)>,
)
    requires
        are_templates_of(templates, files),
    ensures
        all_readable(files),
{
    assert forall|i: int| 0 <= i < files.len() implies is_readable(
        (#[trigger] files[i]).0,
        files[i].1,
    ) by {
        assert(templates[i].holds(files[i].0, files[i].1));
    }
}

} // verus!
