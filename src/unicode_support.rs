use std::path::PathBuf;

use fontconfig::{CharSet, Fontconfig, Pattern};
use freetype::{Face, Library};
use vstd::prelude::*;
use vstd::string::StrSliceExecFns;
use vstd::string::StringExecFns;

verus! {

#[verifier::external_type_specification]
#[verifier::external_body]
pub struct ExFontconfig(Fontconfig);

#[verifier::external_type_specification]
#[verifier::external_body]
pub struct ExCharSet(CharSet);

#[verifier::external_type_specification]
#[verifier::external_body]
pub struct ExPattern<'fc>(Pattern<'fc>);

#[verifier::external_type_specification]
#[verifier::external_body]
pub struct ExLibrary(Library);

#[verifier::external_type_specification]
#[verifier::external_body]
#[verifier::reject_recursive_types(BYTES)]
pub struct ExFace<BYTES>(Face<BYTES>);

#[verifier::external_type_specification]
#[verifier::external_body]
pub struct ExPathBuf(PathBuf);

/// Relies on `fontconfig::Fontconfig::new`: `None` where fontconfig fails to
/// initialise.
#[verifier::external_body]
fn fc_init() -> (r: Option<Fontconfig>) {
    Fontconfig::new()
}

/// Relies on `fontconfig::CharSet::new`: an empty character set, or `None`
/// where fontconfig cannot make one.
#[verifier::external_body]
fn charset_create(fc: &Fontconfig) -> (r: Option<CharSet>) {
    CharSet::new(fc).ok()
}

/// Relies on `fontconfig::CharSet::add_char`: whether the character was added.
#[verifier::external_body]
fn charset_add_char(charset: &mut CharSet, c: char) -> (r: bool) {
    charset.add_char(c).is_ok()
}

/// Relies on `fontconfig::Pattern::new`: an empty pattern, or `None` where
/// fontconfig cannot make one.
#[verifier::external_body]
fn pattern_create<'fc>(fc: &'fc Fontconfig) -> (r: Option<Pattern<'fc>>) {
    Pattern::new(fc).ok()
}

/// Relies on `fontconfig::Pattern::default_substitute`: fills in default
/// values for the properties that the pattern leaves open.
#[verifier::external_body]
fn pattern_default_substitute(pattern: &mut Pattern) {
    pattern.default_substitute()
}

/// Relies on `fontconfig::Pattern::add_charset`: whether the character set
/// was added to the pattern.
#[verifier::external_body]
fn pattern_add_charset(pattern: &mut Pattern, charset: CharSet) -> (r: bool) {
    pattern.add_charset(charset).is_ok()
}

/// Relies on `fontconfig::Pattern::config_substitute`: whether the
/// configuration's substitutions were applied to the pattern.
#[verifier::external_body]
fn pattern_config_substitute(pattern: &mut Pattern) -> (r: bool) {
    pattern.config_substitute().is_ok()
}

/// Relies on `fontconfig::Pattern::font_match`: the installed font that
/// best matches the pattern, or `None` where there is none.
#[verifier::external_body]
fn pattern_font_match<'a>(pattern: &'a mut Pattern) -> (r: Option<Pattern<'a>>) {
    pattern.font_match().ok()
}

/// Relies on `fontconfig::Pattern::filename`: the font file that the pattern
/// names, or `None` where it names none.
#[verifier::external_body]
fn pattern_filename(pattern: &Pattern) -> (r: Option<String>) {
    pattern.filename().ok().map(|f| f.to_string())
}

/// Relies on `PathBuf::from`: the path that the text names.
#[verifier::external_body]
fn path_from_text(s: String) -> (r: PathBuf) {
    PathBuf::from(s)
}

/// Relies on `freetype::Library::init`: a FreeType library, or `None` where
/// it fails to initialise.
#[verifier::external_body]
fn ft_init() -> (r: Option<Library>) {
    Library::init().ok()
}

/// Relies on `freetype::Library::new_face`: face `index` of the font file at
/// `path` (index -1 opens the file only to count its faces), or `None` where
/// it cannot be opened.
#[verifier::external_body]
fn ft_new_face(library: &Library, path: &PathBuf, index: isize) -> (r: Option<Face>) {
    library.new_face(path, index).ok()
}

/// Relies on `freetype::Face::num_faces`: the number of faces in the face's file.
#[verifier::external_body]
fn ft_num_faces(face: &Face) -> (r: i16) {
    face.num_faces()
}

/// Relies on `freetype::Face::get_char_index`: the glyph index of the
/// character in the face; `None` stands for glyph index 0, no glyph.
#[verifier::external_body]
fn ft_char_index(face: &Face, c: char) -> (r: Option<u32>)
    ensures
        r is Some ==> r->0 != 0,
{
    face.get_char_index(c as usize)
}

/// The message of a failed font search for the characters of a string.
pub open spec fn str_search_failure(m: Seq<char>) -> bool {
    ||| m == "Failed to create FcConfig"@
    ||| m == "Failed to create FcCharSet with str"@
    ||| m == "Failed to add chars from str into FcCharSet"@
    ||| pattern_failure(m)
    ||| m == "Empty result_vec for get_matching_font_from_str"@
}

/// The message of a failed font search for one character.
pub open spec fn char_search_failure(m: Seq<char>) -> bool {
    ||| m == "Failed to create FcConfig"@
    ||| m == "Failed to create FcCharSet with char"@
    ||| m == "Failed to add char to FcCharSet"@
    ||| pattern_failure(m)
    ||| m == "Empty result_vec for get_matching_font_from_char"@
}

/// The message of a failure to build, substitute or match a search pattern.
pub open spec fn pattern_failure(m: Seq<char>) -> bool {
    ||| m == "Failed to FcPatternCreate"@
    ||| m == "Failed to add FcCharSet to new Pattern"@
    ||| m == "Failed to apply_pattern_to_config"@
    ||| m == "Failed to FcFontMatch"@
}

/// The message of a failure to open the faces of a font file.
pub open spec fn face_failure(m: Seq<char>) -> bool {
    ||| m == "Failed to get number of faces"@
    ||| m == "Failed to fetch face"@
}

/// A fontconfig session with its fonts loaded.
pub struct FcConfigWr {
    config: Fontconfig,
}

impl FcConfigWr {
    /// The fontconfig session held.
    pub closed spec fn session(&self) -> Fontconfig {
        self.config
    }

    /// Initialises fontconfig.
    pub fn new() -> (r: Result<Self, String>)
        ensures
            r is Err ==> r->Err_0@ == "Failed to create FcConfig"@,
    {
        match fc_init() {
            Some(config) => Ok(FcConfigWr { config }),
            None => Err(String::from_str("Failed to create FcConfig")),
        }
    }

    /// The fontconfig session.
    pub fn get(&self) -> (r: &Fontconfig)
        ensures
            *r == self.session(),
    {
        &self.config
    }

    /// Applies the configuration's substitutions to `pattern`; whether that
    /// went well.
    pub fn apply_pattern_to_config(&self, pattern: &mut FcPatternWr) -> bool {
        pattern_config_substitute(&mut pattern.pattern)
    }

    /// The installed font that best matches `pattern`.
    pub fn font_match<'a>(&self, pattern: &'a mut FcPatternWr) -> (r: Result<FcPatternWr<'a>, String>)
        ensures
            r is Err ==> r->Err_0@ == "Failed to FcFontMatch"@,
    {
        match pattern_font_match(&mut pattern.pattern) {
            Some(found) => Ok(FcPatternWr { pattern: found }),
            None => Err(String::from_str("Failed to FcFontMatch")),
        }
    }
}

/// A set of characters that a font has to cover.
pub struct FcCharSetWr {
    charset: CharSet,
}

impl FcCharSetWr {
    /// The character set held.
    pub closed spec fn set(&self) -> CharSet {
        self.charset
    }

    /// The set of the characters of `s`; fails where one cannot be added.
    pub fn new_with_str(fc: &Fontconfig, s: &str) -> (r: Result<Self, String>)
        ensures
            r is Err ==> r->Err_0@ == "Failed to create FcCharSet with str"@ || r->Err_0@
                == "Failed to add chars from str into FcCharSet"@,
    {
        let mut charset = match charset_create(fc) {
            Some(c) => c,
            None => {
                return Err(String::from_str("Failed to create FcCharSet with str"));
            },
        };
        let n = s.unicode_len();
        let mut i: usize = 0;
        while i < n
            invariant
                n == s@.len(),
                i <= n,
            decreases n - i,
        {
            if !charset_add_char(&mut charset, s.get_char(i)) {
                return Err(String::from_str("Failed to add chars from str into FcCharSet"));
            }
            i = i + 1;
        }
        Ok(FcCharSetWr { charset })
    }

    /// The set of the one character `c`.
    pub fn new_with_char(fc: &Fontconfig, c: char) -> (r: Result<Self, String>)
        ensures
            r is Err ==> r->Err_0@ == "Failed to create FcCharSet with char"@ || r->Err_0@
                == "Failed to add char to FcCharSet"@,
    {
        let mut charset = match charset_create(fc) {
            Some(c) => c,
            None => {
                return Err(String::from_str("Failed to create FcCharSet with char"));
            },
        };
        if !charset_add_char(&mut charset, c) {
            return Err(String::from_str("Failed to add char to FcCharSet"));
        }
        Ok(FcCharSetWr { charset })
    }

    /// The character set.
    pub fn get(&self) -> (r: &CharSet)
        ensures
            *r == self.set(),
    {
        &self.charset
    }
}

/// A font pattern: what a font is asked to be, or a font that was found.
pub struct FcPatternWr<'fc> {
    pattern: Pattern<'fc>,
}

impl<'fc> FcPatternWr<'fc> {
    /// The pattern held.
    pub closed spec fn held(&self) -> Pattern<'fc> {
        self.pattern
    }

    /// A pattern that asks for the characters of `c`, with defaults filled in.
    pub fn new_with_charset(fc: &'fc Fontconfig, c: FcCharSetWr) -> (r: Result<Self, String>)
        ensures
            r is Err ==> r->Err_0@ == "Failed to FcPatternCreate"@ || r->Err_0@
                == "Failed to add FcCharSet to new Pattern"@,
    {
        let mut pattern = match pattern_create(fc) {
            Some(p) => p,
            None => {
                return Err(String::from_str("Failed to FcPatternCreate"));
            },
        };
        pattern_default_substitute(&mut pattern);
        if !pattern_add_charset(&mut pattern, c.charset) {
            return Err(String::from_str("Failed to add FcCharSet to new Pattern"));
        }
        Ok(FcPatternWr { pattern })
    }

    /// The pattern.
    pub fn get(&self) -> (r: &Pattern<'fc>)
        ensures
            *r == self.held(),
    {
        &self.pattern
    }

    /// The font file that the pattern names, where it names one.
    pub fn get_filename_contents(&self) -> (r: Option<String>) {
        pattern_filename(&self.pattern)
    }
}

/// The result of a search whose matched font names `file`: that file, or
/// the error `empty_message` where the font names none.
pub fn font_file_result(file: Option<String>, empty_message: &str) -> (r: Result<String, String>)
    ensures
        r is Ok <==> file is Some,
        file is Some ==> r->Ok_0@ == file->0@,
        file is None ==> r->Err_0@ == empty_message@,
{
    match file {
        Some(f) => Ok(f),
        None => Err(String::from_str(empty_message)),
    }
}

/// The file of the installed font that best covers `charset`.
fn matching_font_file(config: &FcConfigWr, charset: FcCharSetWr, empty_message: &str) -> (r: Result<
    PathBuf,
    String,
>)
    ensures
        r is Err ==> pattern_failure(r->Err_0@) || r->Err_0@ == empty_message@,
{
    let mut search_pattern = match FcPatternWr::new_with_charset(&config.config, charset) {
        Ok(p) => p,
        Err(e) => {
            return Err(e);
        },
    };
    if !config.apply_pattern_to_config(&mut search_pattern) {
        return Err(String::from_str("Failed to apply_pattern_to_config"));
    }
    let result_pattern = match config.font_match(&mut search_pattern) {
        Ok(p) => p,
        Err(e) => {
            return Err(e);
        },
    };
    match font_file_result(result_pattern.get_filename_contents(), empty_message) {
        Ok(file) => Ok(path_from_text(file)),
        Err(e) => Err(e),
    }
}

/// The file of the installed font that best covers the characters of `s`.
pub fn get_matching_font_from_str(s: &str) -> (r: Result<PathBuf, String>)
    ensures
        r is Err ==> str_search_failure(r->Err_0@),
{
    let config = match FcConfigWr::new() {
        Ok(c) => c,
        Err(e) => {
            return Err(e);
        },
    };
    let charset = match FcCharSetWr::new_with_str(&config.config, s) {
        Ok(c) => c,
        Err(e) => {
            return Err(e);
        },
    };
    matching_font_file(&config, charset, "Empty result_vec for get_matching_font_from_str")
}

/// The file of the installed font that best covers `c`.
pub fn get_matching_font_from_char(c: char) -> (r: Result<PathBuf, String>)
    ensures
        r is Err ==> char_search_failure(r->Err_0@),
{
    let config = match FcConfigWr::new() {
        Ok(cfg) => cfg,
        Err(e) => {
            return Err(e);
        },
    };
    let charset = match FcCharSetWr::new_with_char(&config.config, c) {
        Ok(cs) => cs,
        Err(e) => {
            return Err(e);
        },
    };
    matching_font_file(&config, charset, "Empty result_vec for get_matching_font_from_char")
}

/// Whether some glyph index was found: `Some` stands for a glyph.
pub fn any_glyph(indices: &Vec<Option<u32>>) -> (r: bool)
    ensures
        r == exists|i: int| 0 <= i < indices@.len() && indices@[i] is Some,
{
    let mut i: usize = 0;
    while i < indices.len()
        invariant
            i <= indices@.len(),
            forall|j: int| 0 <= j < i ==> indices@[j] is None,
        decreases indices@.len() - i,
    {
        if indices[i].is_some() {
            return true;
        }
        i = i + 1;
    }
    false
}

/// A FreeType library with the faces of one font file.
pub struct FTLibrary {
    library: Library,
    faces: Vec<Face>,
}

impl FTLibrary {
    /// The FreeType library held.
    pub closed spec fn library_held(&self) -> Library {
        self.library
    }

    /// The number of faces opened.
    pub closed spec fn opened(&self) -> nat {
        self.faces@.len()
    }

    /// Initialises FreeType, with no faces yet.
    pub fn new() -> (r: Option<FTLibrary>)
        ensures
            r is Some ==> r->0.opened() == 0,
    {
        match ft_init() {
            Some(library) => Some(FTLibrary { library, faces: Vec::new() }),
            None => None,
        }
    }

    /// The FreeType library.
    pub fn get(&self) -> (r: &Library)
        ensures
            *r == self.library_held(),
    {
        &self.library
    }

    /// The number of faces opened.
    pub fn face_count(&self) -> (r: usize)
        ensures
            r == self.opened(),
    {
        self.faces.len()
    }

    /// Opens every face of the font file at `path`: the file is first opened
    /// to count them, then each is opened in turn.
    pub fn init_faces(&mut self, path: &PathBuf) -> (r: Result<(), String>)
        ensures
            final(self).opened() >= old(self).opened(),
            r is Err ==> face_failure(r->Err_0@),
    {
        let probe = match ft_new_face(&self.library, path, -1) {
            Some(f) => f,
            None => {
                return Err(String::from_str("Failed to get number of faces"));
            },
        };
        let count = ft_num_faces(&probe);
        let mut i: i16 = 0;
        while i < count
            invariant
                self.faces@.len() >= old(self).faces@.len(),
            decreases count - i,
        {
            match ft_new_face(&self.library, path, i as isize) {
                Some(face) => self.faces.push(face),
                None => {
                    return Err(String::from_str("Failed to fetch face"));
                },
            }
            i = i + 1;
        }
        Ok(())
    }

    /// Closes all faces.
    pub fn drop_faces(&mut self)
        ensures
            final(self).opened() == 0,
    {
        self.faces = Vec::new();
    }

    /// Whether some opened face has a glyph for `c`.
    pub fn has_char(&self, c: char) -> (r: bool)
        ensures
            self.opened() == 0 ==> !r,
    {
        let indices = self.glyph_indices(c);
        any_glyph(&indices)
    }

    /// The glyph index of `c` in each opened face, in order; `None` where the
    /// face has no glyph for it.
    pub fn glyph_indices(&self, c: char) -> (r: Vec<Option<u32>>)
        ensures
            r@.len() == self.opened(),
            forall|i: int| 0 <= i < r@.len() && r@[i] is Some ==> r@[i]->0 != 0,
    {
        let mut indices: Vec<Option<u32>> = Vec::new();
        let mut i: usize = 0;
        while i < self.faces.len()
            invariant
                i <= self.faces@.len(),
                indices@.len() == i,
                forall|j: int| 0 <= j < indices@.len() && indices@[j] is Some ==> indices@[j]->0 != 0,
            decreases self.faces@.len() - i,
        {
            indices.push(ft_char_index(&self.faces[i], c));
            i = i + 1;
        }
        indices
    }
}

/// Whether the font file at `font_path` has a glyph for `c` in some face.
pub fn font_has_char(c: char, font_path: &PathBuf) -> (r: Result<bool, String>)
    ensures
        r is Err ==> r->Err_0@ == "Failed to get FTLibrary"@ || face_failure(r->Err_0@),
{
    let mut library = match FTLibrary::new() {
        Some(l) => l,
        None => {
            return Err(String::from_str("Failed to get FTLibrary"));
        },
    };
    match library.init_faces(font_path) {
        Ok(()) => Ok(library.has_char(c)),
        Err(e) => Err(e),
    }
}

} // verus!
