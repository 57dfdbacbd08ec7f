//! Extension manifests: the declarative descriptor an extension directory
//! carries, and the parser that reads it.
//!
//! A manifest is untrusted input. The descriptor format is line-oriented:
//! blank lines, `#` comments, and `key = value` entries, where a value is a
//! double-quoted text (with the escapes `\"`, `\\`, `\n`, `\t`, `\r`) or a
//! single-line list of quoted texts in square brackets (a trailing comma is
//! allowed). Required fields are `name`, `version`, `entry_file` and
//! `permissions`; `author`, `description` and `extension_type` are optional;
//! unknown fields are ignored. Parsing rejects a malformed descriptor without
//! partially constructing anything.
use vstd::prelude::*;

verus! {

/// A capability an extension may request. This closed set is the only
/// vocabulary through which declared intent maps to granted host capability.
#[derive(Clone, Copy, Debug, PartialEq, Eq, Structural)]
pub enum Permission {
    FileSystem,
    Network,
    System,
    Clipboard,
}

/// Which kind of sandbox the extension's entry artifact needs. The manager
/// dispatches on this to pick the sandbox builder; more kinds than
/// WebAssembly are anticipated.
#[derive(Clone, Copy, Debug, PartialEq, Eq, Structural)]
pub enum ExtensionType {
    WebAssembly,
}

/// The declarative, versioned description of an extension: identity, entry
/// artifact, and requested permissions. Immutable for the lifetime of the
/// loaded extension.
#[derive(Debug, PartialEq)]
pub struct ExtensionManifest {
    pub name: String,
    pub version: String,
    pub author: Option<String>,
    pub description: Option<String>,
    pub entry_file: String,
    pub extension_type: ExtensionType,
    pub permissions: Vec<Permission>,
}

/// Mathematical model of an `ExtensionManifest`.
pub ghost struct ExtensionManifestView {
    pub name: Seq<char>,
    pub version: Seq<char>,
    pub author: Option<Seq<char>>,
    pub description: Option<Seq<char>>,
    pub entry_file: Seq<char>,
    pub extension_type: ExtensionType,
    pub permissions: Seq<Permission>,
}

impl View for ExtensionManifest {
    type V = ExtensionManifestView;

    open spec fn view(&self) -> ExtensionManifestView {
        ExtensionManifestView {
            name: self.name@,
            version: self.version@,
            author: crate::commands::opt_str_view(self.author),
            description: crate::commands::opt_str_view(self.description),
            entry_file: self.entry_file@,
            extension_type: self.extension_type,
            permissions: self.permissions@,
        }
    }
}

impl Clone for ExtensionManifest {
    fn clone(&self) -> (r: Self)
        ensures
            r@ == self@,
    {
        let mut permissions: Vec<Permission> = Vec::new();
        let mut i: usize = 0;
        while i < self.permissions.len()
            invariant
                i <= self.permissions.len(),
                permissions@ == self.permissions@.subrange(0, i as int),
            decreases self.permissions.len() - i,
        {
            permissions.push(self.permissions[i]);
            proof {
                assert(permissions@ =~= self.permissions@.subrange(0, i + 1));
            }
            i = i + 1;
        }
        proof {
            assert(permissions@ =~= self.permissions@);
        }
        ExtensionManifest {
            name: self.name.clone(),
            version: self.version.clone(),
            author: crate::commands::clone_opt_str(&self.author),
            description: crate::commands::clone_opt_str(&self.description),
            entry_file: self.entry_file.clone(),
            extension_type: self.extension_type,
            permissions,
        }
    }
}

/// Why a descriptor is rejected. `Syntax` is any line that is not blank, a
/// comment, or a well-formed entry; the rest are schema failures.
#[derive(Clone, Copy, Debug, PartialEq, Eq, Structural)]
pub enum ManifestError {
    Syntax,
    DuplicateKey,
    WrongType,
    UnknownPermission,
    UnknownExtensionType,
    MissingName,
    MissingVersion,
    MissingEntryFile,
    MissingPermissions,
}

/// Whitespace inside a line: space, tab, and the carriage return of a CRLF
/// line ending.
pub open spec fn is_ws(c: char) -> bool {
    c == ' ' || c == '\t' || c == '\r'
}

/// Characters a bare key is made of: ASCII letters, digits, `_` and `-`.
pub open spec fn is_key_char(c: char) -> bool {
    let n = c as u32;
    (97 <= n && n <= 122) || (65 <= n && n <= 90) || (48 <= n && n <= 57) || n == 95 || n == 45
}

/// What a backslash escape inside a quoted text stands for, if it is one of
/// the accepted escapes.
pub open spec fn unescape(c: char) -> Option<char> {
    if c == '"' {
        Some('"')
    } else if c == '\\' {
        Some('\\')
    } else if c == 'n' {
        Some('\n')
    } else if c == 't' {
        Some('\t')
    } else if c == 'r' {
        Some('\r')
    } else {
        None
    }
}

/// Scans a quoted text from position `q` (just past the opening quote) with
/// the content read so far, to the closing quote: the position after it and
/// the unescaped content, or nothing if the text never closes or holds a bad
/// escape.
pub open spec fn scan_text(line: Seq<char>, q: int, cur: Seq<char>) -> Option<(int, Seq<char>)>
    decreases line.len() - q,
{
    if q < 0 || q >= line.len() {
        None
    } else if line[q] == '"' {
        Some((q + 1, cur))
    } else if line[q] == '\\' {
        if q + 1 < line.len() {
            match unescape(line[q + 1]) {
                Some(c) => scan_text(line, q + 2, cur.push(c)),
                None => None,
            }
        } else {
            None
        }
    } else {
        scan_text(line, q + 1, cur.push(line[q]))
    }
}

/// Exec mirror of `is_ws`.
fn ws_char(c: char) -> (r: bool)
    ensures
        r == is_ws(c),
{
    c == ' ' || c == '\t' || c == '\r'
}

/// Exec mirror of `is_key_char`.
fn key_char(c: char) -> (r: bool)
    ensures
        r == is_key_char(c),
{
    let n = c as u32;
    (97 <= n && n <= 122) || (65 <= n && n <= 90) || (48 <= n && n <= 57) || n == 95 || n == 45
}

/// Exec mirror of `unescape`.
fn unescape_char(c: char) -> (r: Option<char>)
    ensures
        r == unescape(c),
{
    if c == '"' {
        Some('"')
    } else if c == '\\' {
        Some('\\')
    } else if c == 'n' {
        Some('\n')
    } else if c == 't' {
        Some('\t')
    } else if c == 'r' {
        Some('\r')
    } else {
        None
    }
}

/// Exec mirror of `scan_text`: scans a quoted text from `q` (just past the
/// opening quote).
fn scan_text_exec(line: &Vec<char>, q: usize) -> (r: Option<(usize, Vec<char>)>)
    requires
        q <= line@.len(),
    ensures
        match r {
            Some((e, cur)) => scan_text(line@, q as int, Seq::empty()) == Some(
                (e as int, cur@),
            ) && q < e <= line@.len(),
            None => scan_text(line@, q as int, Seq::empty()) is None,
        },
{
    let mut p: usize = q;
    let mut cur: Vec<char> = Vec::new();
    loop
        invariant
            q <= p <= line@.len(),
            scan_text(line@, q as int, Seq::empty()) == scan_text(line@, p as int, cur@),
        decreases line@.len() - p,
    {
        if p >= line.len() {
            return None;
        }
        let c = line[p];
        if c == '"' {
            return Some((p + 1, cur));
        } else if c == '\\' {
            if p + 1 < line.len() {
                match unescape_char(line[p + 1]) {
                    Some(u) => {
                        cur.push(u);
                        p = p + 2;
                    },
                    None => {
                        return None;
                    },
                }
            } else {
                return None;
            }
        } else {
            cur.push(c);
            p = p + 1;
        }
    }
}

/// The first position at or after `p` that does not hold whitespace.
pub open spec fn skip_ws(line: Seq<char>, p: int) -> int
    decreases line.len() - p,
{
    if p < 0 || p >= line.len() {
        line.len() as int
    } else if is_ws(line[p]) {
        skip_ws(line, p + 1)
    } else {
        p
    }
}

/// The first position at or after `p` that does not hold a key character.
pub open spec fn key_end(line: Seq<char>, p: int) -> int
    decreases line.len() - p,
{
    if p < 0 || p >= line.len() {
        line.len() as int
    } else if is_key_char(line[p]) {
        key_end(line, p + 1)
    } else {
        p
    }
}

/// Where a scan through a bracketed list stands: before an element (or the
/// closing bracket), inside a quoted element, or after an element.
pub ghost enum ListScan {
    Expecting,
    InText(Seq<char>),
    AfterElem,
}

/// Scans a bracketed list of quoted texts from position `q` (just past the
/// opening bracket when `st` is `Expecting` and `acc` is empty): the position
/// after the closing bracket and the elements, or nothing if the list is
/// malformed. A trailing comma before the closing bracket is allowed.
pub open spec fn scan_list(
    line: Seq<char>,
    q: int,
    st: ListScan,
    acc: Seq<Seq<char>>,
) -> Option<(int, Seq<Seq<char>>)>
    decreases line.len() - q,
{
    if q < 0 || q >= line.len() {
        None
    } else {
        let c = line[q];
        match st {
            ListScan::Expecting => {
                if is_ws(c) {
                    scan_list(line, q + 1, ListScan::Expecting, acc)
                } else if c == ']' {
                    Some((q + 1, acc))
                } else if c == '"' {
                    scan_list(line, q + 1, ListScan::InText(Seq::empty()), acc)
                } else {
                    None
                }
            },
            ListScan::InText(cur) => {
                if c == '"' {
                    scan_list(line, q + 1, ListScan::AfterElem, acc.push(cur))
                } else if c == '\\' {
                    if q + 1 < line.len() {
                        match unescape(line[q + 1]) {
                            Some(u) => scan_list(line, q + 2, ListScan::InText(cur.push(u)), acc),
                            None => None,
                        }
                    } else {
                        None
                    }
                } else {
                    scan_list(line, q + 1, ListScan::InText(cur.push(c)), acc)
                }
            },
            ListScan::AfterElem => {
                if is_ws(c) {
                    scan_list(line, q + 1, ListScan::AfterElem, acc)
                } else if c == ',' {
                    scan_list(line, q + 1, ListScan::Expecting, acc)
                } else if c == ']' {
                    Some((q + 1, acc))
                } else {
                    None
                }
            },
        }
    }
}

/// A list scan standing inside a quoted element agrees with `scan_text` on
/// that element.
proof fn lemma_scan_list_text(line: Seq<char>, q: int, cur: Seq<char>, acc: Seq<Seq<char>>)
    ensures
        scan_list(line, q, ListScan::InText(cur), acc) == match scan_text(line, q, cur) {
            Some((e, s)) => scan_list(line, e, ListScan::AfterElem, acc.push(s)),
            None => None,
        },
    decreases line.len() - q,
{
    if q < 0 || q >= line.len() {
    } else if line[q] == '"' {
    } else if line[q] == '\\' {
        if q + 1 < line.len() {
            match unescape(line[q + 1]) {
                Some(u) => lemma_scan_list_text(line, q + 2, cur.push(u), acc),
                None => {},
            }
        }
    } else {
        lemma_scan_list_text(line, q + 1, cur.push(line[q]), acc)
    }
}

/// Exec mirror of `skip_ws`.
fn skip_ws_exec(line: &Vec<char>, p: usize) -> (q: usize)
    requires
        p <= line@.len(),
    ensures
        q as int == skip_ws(line@, p as int),
        p <= q <= line@.len(),
{
    let mut r: usize = p;
    while r < line.len() && ws_char(line[r])
        invariant
            p <= r <= line@.len(),
            skip_ws(line@, p as int) == skip_ws(line@, r as int),
        decreases line@.len() - r,
    {
        r = r + 1;
    }
    r
}

/// Exec mirror of `key_end`.
fn key_end_exec(line: &Vec<char>, p: usize) -> (q: usize)
    requires
        p <= line@.len(),
    ensures
        q as int == key_end(line@, p as int),
        p <= q <= line@.len(),
{
    let mut r: usize = p;
    while r < line.len() && key_char(line[r])
        invariant
            p <= r <= line@.len(),
            key_end(line@, p as int) == key_end(line@, r as int),
        decreases line@.len() - r,
    {
        r = r + 1;
    }
    r
}

/// Copies the characters `a ..= b - 1` of `line`.
fn copy_range(line: &Vec<char>, a: usize, b: usize) -> (v: Vec<char>)
    requires
        a <= b <= line@.len(),
    ensures
        v@ == line@.subrange(a as int, b as int),
{
    let mut v: Vec<char> = Vec::new();
    let mut i: usize = a;
    while i < b
        invariant
            a <= i <= b <= line@.len(),
            v@ == line@.subrange(a as int, i as int),
        decreases b - i,
    {
        v.push(line[i]);
        proof {
            assert(v@ =~= line@.subrange(a as int, i + 1));
        }
        i = i + 1;
    }
    v
}

/// The model of the elements a list scan has gathered.
pub open spec fn elems_view(elems: Seq<Vec<char>>) -> Seq<Seq<char>> {
    elems.map_values(|v: Vec<char>| v@)
}

/// Exec mirror of `scan_list`, scanning from just past the opening bracket.
fn scan_list_exec(line: &Vec<char>, q: usize) -> (r: Option<(usize, Vec<Vec<char>>)>)
    requires
        q <= line@.len(),
    ensures
        match r {
            Some((e, elems)) => scan_list(line@, q as int, ListScan::Expecting, Seq::empty())
                == Some((e as int, elems_view(elems@))) && q < e <= line@.len(),
            None => scan_list(line@, q as int, ListScan::Expecting, Seq::empty()) is None,
        },
{
    let mut p: usize = q;
    let mut elems: Vec<Vec<char>> = Vec::new();
    let mut expecting = true;
    proof {
        assert(elems_view(elems@) =~= Seq::<Seq<char>>::empty());
    }
    loop
        invariant
            q <= p <= line@.len(),
            scan_list(line@, q as int, ListScan::Expecting, Seq::empty()) == scan_list(
                line@,
                p as int,
                if expecting {
                    ListScan::Expecting
                } else {
                    ListScan::AfterElem
                },
                elems_view(elems@),
            ),
        decreases line@.len() - p,
    {
        if p >= line.len() {
            return None;
        }
        let c = line[p];
        if expecting {
            if ws_char(c) {
                p = p + 1;
            } else if c == ']' {
                return Some((p + 1, elems));
            } else if c == '"' {
                proof {
                    lemma_scan_list_text(line@, p + 1, Seq::empty(), elems_view(elems@));
                }
                match scan_text_exec(line, p + 1) {
                    Some((e, s)) => {
                        let ghost old_elems = elems@;
                        elems.push(s);
                        proof {
                            assert(elems_view(elems@) =~= elems_view(old_elems).push(s@));
                        }
                        expecting = false;
                        p = e;
                    },
                    None => {
                        return None;
                    },
                }
            } else {
                return None;
            }
        } else {
            if ws_char(c) {
                p = p + 1;
            } else if c == ',' {
                expecting = true;
                p = p + 1;
            } else if c == ']' {
                return Some((p + 1, elems));
            } else {
                return None;
            }
        }
    }
}

/// A parsed value: a quoted text or a list of quoted texts.
pub ghost enum ValueForm {
    Text(Seq<char>),
    List(Seq<Seq<char>>),
}

/// What one line of a descriptor is: nothing (blank or comment), one
/// `key = value` entry, or malformed.
pub ghost enum LineForm {
    Blank,
    Entry { key: Seq<char>, value: ValueForm },
    Malformed,
}

/// Whether only whitespace and at most a comment follow position `p`.
pub open spec fn tail_ok(line: Seq<char>, p: int) -> bool {
    let f = skip_ws(line, p);
    f >= line.len() || line[f] == '#'
}

/// Classifies one line of a descriptor.
pub open spec fn classify_line(line: Seq<char>) -> LineForm {
    let a = skip_ws(line, 0);
    if a >= line.len() || line[a] == '#' {
        LineForm::Blank
    } else {
        let b = key_end(line, a);
        if b == a {
            LineForm::Malformed
        } else {
            let c = skip_ws(line, b);
            if c >= line.len() || line[c] != '=' {
                LineForm::Malformed
            } else {
                let d = skip_ws(line, c + 1);
                if d >= line.len() {
                    LineForm::Malformed
                } else if line[d] == '"' {
                    match scan_text(line, d + 1, Seq::empty()) {
                        Some((e, content)) => {
                            if tail_ok(line, e) {
                                LineForm::Entry {
                                    key: line.subrange(a, b),
                                    value: ValueForm::Text(content),
                                }
                            } else {
                                LineForm::Malformed
                            }
                        },
                        None => LineForm::Malformed,
                    }
                } else if line[d] == '[' {
                    match scan_list(line, d + 1, ListScan::Expecting, Seq::empty()) {
                        Some((e, elems)) => {
                            if tail_ok(line, e) {
                                LineForm::Entry {
                                    key: line.subrange(a, b),
                                    value: ValueForm::List(elems),
                                }
                            } else {
                                LineForm::Malformed
                            }
                        },
                        None => LineForm::Malformed,
                    }
                } else {
                    LineForm::Malformed
                }
            }
        }
    }
}

/// Exec form of a parsed value.
enum ValueData {
    Text(Vec<char>),
    List(Vec<Vec<char>>),
}

/// Exec form of a classified line.
enum LineData {
    Blank,
    Entry { key: Vec<char>, value: ValueData },
    Malformed,
}

impl ValueData {
    /// The model of this value.
    pub closed spec fn view_form(&self) -> ValueForm {
        match self {
            ValueData::Text(v) => ValueForm::Text(v@),
            ValueData::List(vs) => ValueForm::List(elems_view(vs@)),
        }
    }
}

impl LineData {
    /// The model of this classified line.
    pub closed spec fn view_form(&self) -> LineForm {
        match self {
            LineData::Blank => LineForm::Blank,
            LineData::Entry { key, value } => LineForm::Entry {
                key: key@,
                value: value.view_form(),
            },
            LineData::Malformed => LineForm::Malformed,
        }
    }
}

/// Whether a line is malformed under `classify_line`.
pub(crate) fn line_malformed(line: &Vec<char>) -> (r: bool)
    ensures
        r == (classify_line(line@) is Malformed),
{
    match classify_exec(line) {
        LineData::Malformed => true,
        _ => false,
    }
}

/// The permission a name in a descriptor's `permissions` list stands for.
pub open spec fn permission_of(name: Seq<char>) -> Option<Permission> {
    if name == "FileSystem"@ {
        Some(Permission::FileSystem)
    } else if name == "Network"@ {
        Some(Permission::Network)
    } else if name == "System"@ {
        Some(Permission::System)
    } else if name == "Clipboard"@ {
        Some(Permission::Clipboard)
    } else {
        None
    }
}

/// The permissions a whole list of names stands for; nothing if any name is
/// unknown.
pub open spec fn permissions_of(names: Seq<Seq<char>>) -> Option<Seq<Permission>>
    decreases names.len(),
{
    if names.len() == 0 {
        Some(Seq::empty())
    } else {
        match permission_of(names[0]) {
            Some(p) => match permissions_of(names.drop_first()) {
                Some(rest) => Some(seq![p] + rest),
                None => None,
            },
            None => None,
        }
    }
}

/// The extension type a descriptor's `extension_type` value stands for.
pub open spec fn extension_type_of(name: Seq<char>) -> Option<ExtensionType> {
    if name == "wasm"@ {
        Some(ExtensionType::WebAssembly)
    } else {
        None
    }
}

/// The fields gathered while reading a descriptor, each present once it has
/// been seen.
pub ghost struct PartialManifest {
    pub name: Option<Seq<char>>,
    pub version: Option<Seq<char>>,
    pub author: Option<Seq<char>>,
    pub description: Option<Seq<char>>,
    pub entry_file: Option<Seq<char>>,
    pub extension_type: Option<ExtensionType>,
    pub permissions: Option<Seq<Permission>>,
}

/// The state before any entry has been read.
pub open spec fn empty_partial() -> PartialManifest {
    PartialManifest {
        name: None,
        version: None,
        author: None,
        description: None,
        entry_file: None,
        extension_type: None,
        permissions: None,
    }
}

/// Applies one `key = value` entry to the fields gathered so far: a known key
/// must carry the right value shape and must not repeat; an unknown key is
/// ignored.
pub open spec fn apply_entry(acc: PartialManifest, key: Seq<char>, value: ValueForm) -> Result<
    PartialManifest,
    ManifestError,
> {
    if key == "name"@ {
        match value {
            ValueForm::Text(s) => {
                if acc.name is Some {
                    Err(ManifestError::DuplicateKey)
                } else {
                    Ok(PartialManifest { name: Some(s), ..acc })
                }
            },
            ValueForm::List(_) => Err(ManifestError::WrongType),
        }
    } else if key == "version"@ {
        match value {
            ValueForm::Text(s) => {
                if acc.version is Some {
                    Err(ManifestError::DuplicateKey)
                } else {
                    Ok(PartialManifest { version: Some(s), ..acc })
                }
            },
            ValueForm::List(_) => Err(ManifestError::WrongType),
        }
    } else if key == "author"@ {
        match value {
            ValueForm::Text(s) => {
                if acc.author is Some {
                    Err(ManifestError::DuplicateKey)
                } else {
                    Ok(PartialManifest { author: Some(s), ..acc })
                }
            },
            ValueForm::List(_) => Err(ManifestError::WrongType),
        }
    } else if key == "description"@ {
        match value {
            ValueForm::Text(s) => {
                if acc.description is Some {
                    Err(ManifestError::DuplicateKey)
                } else {
                    Ok(PartialManifest { description: Some(s), ..acc })
                }
            },
            ValueForm::List(_) => Err(ManifestError::WrongType),
        }
    } else if key == "entry_file"@ {
        match value {
            ValueForm::Text(s) => {
                if acc.entry_file is Some {
                    Err(ManifestError::DuplicateKey)
                } else {
                    Ok(PartialManifest { entry_file: Some(s), ..acc })
                }
            },
            ValueForm::List(_) => Err(ManifestError::WrongType),
        }
    } else if key == "extension_type"@ {
        match value {
            ValueForm::Text(s) => {
                if acc.extension_type is Some {
                    Err(ManifestError::DuplicateKey)
                } else {
                    match extension_type_of(s) {
                        Some(t) => Ok(PartialManifest { extension_type: Some(t), ..acc }),
                        None => Err(ManifestError::UnknownExtensionType),
                    }
                }
            },
            ValueForm::List(_) => Err(ManifestError::WrongType),
        }
    } else if key == "permissions"@ {
        match value {
            ValueForm::List(names) => {
                if acc.permissions is Some {
                    Err(ManifestError::DuplicateKey)
                } else {
                    match permissions_of(names) {
                        Some(ps) => Ok(PartialManifest { permissions: Some(ps), ..acc }),
                        None => Err(ManifestError::UnknownPermission),
                    }
                }
            },
            ValueForm::Text(_) => Err(ManifestError::WrongType),
        }
    } else {
        Ok(acc)
    }
}

/// Reads one whole line into the gathered fields.
pub open spec fn step_line(acc: PartialManifest, line: Seq<char>) -> Result<
    PartialManifest,
    ManifestError,
> {
    match classify_line(line) {
        LineForm::Blank => Ok(acc),
        LineForm::Malformed => Err(ManifestError::Syntax),
        LineForm::Entry { key, value } => apply_entry(acc, key, value),
    }
}

/// Checks the gathered fields against the schema: `name`, `version`,
/// `entry_file` and `permissions` are required; a missing `extension_type`
/// defaults to WebAssembly.
pub open spec fn seal_manifest(acc: PartialManifest) -> Result<
    ExtensionManifestView,
    ManifestError,
> {
    match acc.name {
        None => Err(ManifestError::MissingName),
        Some(name) => match acc.version {
            None => Err(ManifestError::MissingVersion),
            Some(version) => match acc.entry_file {
                None => Err(ManifestError::MissingEntryFile),
                Some(entry_file) => match acc.permissions {
                    None => Err(ManifestError::MissingPermissions),
                    Some(permissions) => Ok(
                        ExtensionManifestView {
                            name,
                            version,
                            author: acc.author,
                            description: acc.description,
                            entry_file,
                            extension_type: match acc.extension_type {
                                Some(t) => t,
                                None => ExtensionType::WebAssembly,
                            },
                            permissions,
                        },
                    ),
                },
            },
        },
    }
}

/// Reads a whole descriptor from position `p`, with the current line read so
/// far and the fields gathered so far.
pub open spec fn parse_doc(
    text: Seq<char>,
    p: int,
    cur: Seq<char>,
    acc: PartialManifest,
) -> Result<ExtensionManifestView, ManifestError>
    decreases text.len() - p,
{
    if p < 0 || p >= text.len() {
        match step_line(acc, cur) {
            Ok(done) => seal_manifest(done),
            Err(e) => Err(e),
        }
    } else if text[p] == '\n' {
        match step_line(acc, cur) {
            Ok(done) => parse_doc(text, p + 1, Seq::empty(), done),
            Err(e) => Err(e),
        }
    } else {
        parse_doc(text, p + 1, cur.push(text[p]), acc)
    }
}

/// What a whole descriptor text denotes: a manifest, or the first failure the
/// line-by-line reading meets.
pub open spec fn manifest_spec(text: Seq<char>) -> Result<ExtensionManifestView, ManifestError> {
    parse_doc(text, 0, Seq::empty(), empty_partial())
}

/// Exec mirror of `classify_line`.
fn classify_exec(line: &Vec<char>) -> (r: LineData)
    ensures
        r.view_form() == classify_line(line@),
{
    let a = skip_ws_exec(line, 0);
    if a >= line.len() || line[a] == '#' {
        return LineData::Blank;
    }
    let b = key_end_exec(line, a);
    if b == a {
        return LineData::Malformed;
    }
    let c = skip_ws_exec(line, b);
    if c >= line.len() || line[c] != '=' {
        return LineData::Malformed;
    }
    let d = skip_ws_exec(line, c + 1);
    if d >= line.len() {
        return LineData::Malformed;
    }
    if line[d] == '"' {
        match scan_text_exec(line, d + 1) {
            Some((e, content)) => {
                let f = skip_ws_exec(line, e);
                if f >= line.len() || line[f] == '#' {
                    let key = copy_range(line, a, b);
                    LineData::Entry { key, value: ValueData::Text(content) }
                } else {
                    LineData::Malformed
                }
            },
            None => LineData::Malformed,
        }
    } else if line[d] == '[' {
        match scan_list_exec(line, d + 1) {
            Some((e, elems)) => {
                let f = skip_ws_exec(line, e);
                if f >= line.len() || line[f] == '#' {
                    let key = copy_range(line, a, b);
                    LineData::Entry { key, value: ValueData::List(elems) }
                } else {
                    LineData::Malformed
                }
            },
            None => LineData::Malformed,
        }
    } else {
        LineData::Malformed
    }
}

/// Relies on `str::chars`: the characters of the string, in order.
#[verifier::external_body]
pub(crate) fn chars_of(text: &str) -> (v: Vec<char>)
    ensures
        v@ == text@,
{
    text.chars().collect()
}

/// Relies on `String`'s character collector (`FromIterator<char>`): the
/// collected string holds exactly the characters handed to it, in order.
#[verifier::external_body]
fn string_of(chars: &Vec<char>) -> (s: String)
    ensures
        s@ == chars@,
{
    chars.iter().collect()
}

/// Exec mirror of `permission_of`.
fn permission_of_exec(name: &Vec<char>) -> (r: Option<Permission>)
    ensures
        r == permission_of(name@),
{
    let s = string_of(name);
    if s == "FileSystem".to_owned() {
        Some(Permission::FileSystem)
    } else if s == "Network".to_owned() {
        Some(Permission::Network)
    } else if s == "System".to_owned() {
        Some(Permission::System)
    } else if s == "Clipboard".to_owned() {
        Some(Permission::Clipboard)
    } else {
        None
    }
}

/// Exec mirror of `permissions_of`, reading the names from position `i` on.
fn permissions_of_exec(names: &Vec<Vec<char>>, i: usize) -> (r: Option<Vec<Permission>>)
    requires
        i <= names@.len(),
    ensures
        match r {
            Some(ps) => permissions_of(elems_view(names@).skip(i as int)) == Some(ps@),
            None => permissions_of(elems_view(names@).skip(i as int)) is None,
        },
    decreases names@.len() - i,
{
    if i == names.len() {
        proof {
            assert(elems_view(names@).skip(i as int) =~= Seq::<Seq<char>>::empty());
        }
        Some(Vec::new())
    } else {
        proof {
            assert(elems_view(names@).skip(i as int)[0] == names@[i as int]@);
            assert(elems_view(names@).skip(i as int).drop_first() =~= elems_view(names@).skip(
                i + 1,
            ));
        }
        match permission_of_exec(&names[i]) {
            Some(p) => match permissions_of_exec(names, i + 1) {
                Some(mut rest) => {
                    let ghost rest_view = rest@;
                    rest.insert(0, p);
                    proof {
                        assert(rest@ =~= seq![p] + rest_view);
                    }
                    Some(rest)
                },
                None => None,
            },
            None => None,
        }
    }
}

/// Exec mirror of `extension_type_of`.
fn extension_type_of_exec(name: &Vec<char>) -> (r: Option<ExtensionType>)
    ensures
        r == extension_type_of(name@),
{
    let s = string_of(name);
    if s == "wasm".to_owned() {
        Some(ExtensionType::WebAssembly)
    } else {
        None
    }
}

/// Exec form of the fields gathered while reading a descriptor.
struct PartialData {
    name: Option<String>,
    version: Option<String>,
    author: Option<String>,
    description: Option<String>,
    entry_file: Option<String>,
    extension_type: Option<ExtensionType>,
    permissions: Option<Vec<Permission>>,
}

impl PartialData {
    /// The model of the gathered fields.
    pub closed spec fn view_partial(&self) -> PartialManifest {
        PartialManifest {
            name: crate::commands::opt_str_view(self.name),
            version: crate::commands::opt_str_view(self.version),
            author: crate::commands::opt_str_view(self.author),
            description: crate::commands::opt_str_view(self.description),
            entry_file: crate::commands::opt_str_view(self.entry_file),
            extension_type: self.extension_type,
            permissions: match self.permissions {
                Some(ps) => Some(ps@),
                None => None,
            },
        }
    }

    /// The state before any entry has been read.
    fn empty() -> (r: Self)
        ensures
            r.view_partial() == empty_partial(),
    {
        PartialData {
            name: None,
            version: None,
            author: None,
            description: None,
            entry_file: None,
            extension_type: None,
            permissions: None,
        }
    }
}

/// Exec mirror of `apply_entry`.
fn apply_entry_exec(acc: PartialData, key: &Vec<char>, value: ValueData) -> (r: Result<
    PartialData,
    ManifestError,
>)
    ensures
        match r {
            Ok(done) => apply_entry(acc.view_partial(), key@, value.view_form()) == Ok::<
                PartialManifest,
                ManifestError,
            >(done.view_partial()),
            Err(e) => apply_entry(acc.view_partial(), key@, value.view_form()) == Err::<
                PartialManifest,
                ManifestError,
            >(e),
        },
{
    let k = string_of(key);
    if k == "name".to_owned() {
        match value {
            ValueData::Text(s) => {
                if acc.name.is_some() {
                    Err(ManifestError::DuplicateKey)
                } else {
                    Ok(PartialData { name: Some(string_of(&s)), ..acc })
                }
            },
            ValueData::List(_) => Err(ManifestError::WrongType),
        }
    } else if k == "version".to_owned() {
        match value {
            ValueData::Text(s) => {
                if acc.version.is_some() {
                    Err(ManifestError::DuplicateKey)
                } else {
                    Ok(PartialData { version: Some(string_of(&s)), ..acc })
                }
            },
            ValueData::List(_) => Err(ManifestError::WrongType),
        }
    } else if k == "author".to_owned() {
        match value {
            ValueData::Text(s) => {
                if acc.author.is_some() {
                    Err(ManifestError::DuplicateKey)
                } else {
                    Ok(PartialData { author: Some(string_of(&s)), ..acc })
                }
            },
            ValueData::List(_) => Err(ManifestError::WrongType),
        }
    } else if k == "description".to_owned() {
        match value {
            ValueData::Text(s) => {
                if acc.description.is_some() {
                    Err(ManifestError::DuplicateKey)
                } else {
                    Ok(PartialData { description: Some(string_of(&s)), ..acc })
                }
            },
            ValueData::List(_) => Err(ManifestError::WrongType),
        }
    } else if k == "entry_file".to_owned() {
        match value {
            ValueData::Text(s) => {
                if acc.entry_file.is_some() {
                    Err(ManifestError::DuplicateKey)
                } else {
                    Ok(PartialData { entry_file: Some(string_of(&s)), ..acc })
                }
            },
            ValueData::List(_) => Err(ManifestError::WrongType),
        }
    } else if k == "extension_type".to_owned() {
        match value {
            ValueData::Text(s) => {
                if acc.extension_type.is_some() {
                    Err(ManifestError::DuplicateKey)
                } else {
                    match extension_type_of_exec(&s) {
                        Some(t) => Ok(PartialData { extension_type: Some(t), ..acc }),
                        None => Err(ManifestError::UnknownExtensionType),
                    }
                }
            },
            ValueData::List(_) => Err(ManifestError::WrongType),
        }
    } else if k == "permissions".to_owned() {
        match value {
            ValueData::List(names) => {
                if acc.permissions.is_some() {
                    Err(ManifestError::DuplicateKey)
                } else {
                    proof {
                        assert(elems_view(names@).skip(0) =~= elems_view(names@));
                    }
                    match permissions_of_exec(&names, 0) {
                        Some(ps) => Ok(PartialData { permissions: Some(ps), ..acc }),
                        None => Err(ManifestError::UnknownPermission),
                    }
                }
            },
            ValueData::Text(_) => Err(ManifestError::WrongType),
        }
    } else {
        Ok(acc)
    }
}

/// Exec mirror of `step_line`.
fn step_line_exec(acc: PartialData, line: &Vec<char>) -> (r: Result<PartialData, ManifestError>)
    ensures
        match r {
            Ok(done) => step_line(acc.view_partial(), line@) == Ok::<PartialManifest, ManifestError>(done.view_partial()),
            Err(e) => step_line(acc.view_partial(), line@) == Err::<PartialManifest, ManifestError>(
                e,
            ),
        },
{
    match classify_exec(line) {
        LineData::Blank => Ok(acc),
        LineData::Malformed => Err(ManifestError::Syntax),
        LineData::Entry { key, value } => apply_entry_exec(acc, &key, value),
    }
}

/// Exec mirror of `seal_manifest`.
fn seal_manifest_exec(acc: PartialData) -> (r: Result<ExtensionManifest, ManifestError>)
    ensures
        match r {
            Ok(m) => seal_manifest(acc.view_partial()) == Ok::<ExtensionManifestView, ManifestError>(m@),
            Err(e) => seal_manifest(acc.view_partial()) == Err::<
                ExtensionManifestView,
                ManifestError,
            >(e),
        },
{
    match acc.name {
        None => Err(ManifestError::MissingName),
        Some(name) => match acc.version {
            None => Err(ManifestError::MissingVersion),
            Some(version) => match acc.entry_file {
                None => Err(ManifestError::MissingEntryFile),
                Some(entry_file) => match acc.permissions {
                    None => Err(ManifestError::MissingPermissions),
                    Some(permissions) => Ok(
                        ExtensionManifest {
                            name,
                            version,
                            author: acc.author,
                            description: acc.description,
                            entry_file,
                            extension_type: match acc.extension_type {
                                Some(t) => t,
                                None => ExtensionType::WebAssembly,
                            },
                            permissions,
                        },
                    ),
                },
            },
        },
    }
}

/// Parses an extension descriptor. Returns exactly the manifest the text
/// denotes, or the first failure the line-by-line reading meets; nothing is
/// partially constructed on failure.
pub fn parse_manifest(text: &str) -> (r: Result<ExtensionManifest, ManifestError>)
    ensures
        match r {
            Ok(m) => manifest_spec(text@) == Ok::<ExtensionManifestView, ManifestError>(m@),
            Err(e) => manifest_spec(text@) == Err::<ExtensionManifestView, ManifestError>(e),
        },
{
    let chars = chars_of(text);
    let mut p: usize = 0;
    let mut cur: Vec<char> = Vec::new();
    let mut acc = PartialData::empty();
    loop
        invariant
            p <= chars@.len(),
            chars@ == text@,
            manifest_spec(text@) == parse_doc(text@, p as int, cur@, acc.view_partial()),
        decreases chars@.len() - p,
    {
        if p >= chars.len() {
            match step_line_exec(acc, &cur) {
                Ok(done) => {
                    return seal_manifest_exec(done);
                },
                Err(e) => {
                    return Err(e);
                },
            }
        }
        let c = chars[p];
        if c == '\n' {
            match step_line_exec(acc, &cur) {
                Ok(done) => {
                    acc = done;
                    cur = Vec::new();
                    p = p + 1;
                },
                Err(e) => {
                    return Err(e);
                },
            }
        } else {
            cur.push(c);
            p = p + 1;
        }
    }
}

} // verus!
