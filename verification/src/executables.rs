//! Finding a game's executables: which folders the scan enters, which files
//! count as the game's own executables, and the final listing.
use vstd::prelude::*;
use crate::text::{contains_str, ends_with_str, has_substring, has_suffix};

verus! {

/// What `str::to_lowercase` gives for `s` (Unicode lower case).
pub uninterp spec fn lowercase(s: Seq<char>) -> Seq<char>;

/// A character below 128.
pub open spec fn is_ascii_char(c: char) -> bool {
    (c as u32) < 128
}

/// Every character of `s` is below 128.
pub open spec fn is_ascii_text(s: Seq<char>) -> bool {
    forall|i: int| 0 <= i < s.len() ==> is_ascii_char(#[trigger] s[i])
}

/// The lower case of an ASCII character: 'A' to 'Z' become 'a' to 'z', every
/// other character stays.
pub open spec fn ascii_lower_char(c: char) -> char {
    if 'A' <= c && c <= 'Z' {
        ((c as u32) + 32) as char
    } else {
        c
    }
}

/// The lower case of a text, character by character.
pub open spec fn ascii_lower(s: Seq<char>) -> Seq<char> {
    s.map_values(|c: char| ascii_lower_char(c))
}

/// The lower-case form of a name.
///
/// Calls `str::to_lowercase`. Unicode case mapping in general is only named;
/// on an ASCII text it maps 'A' to 'Z' to 'a' to 'z' and keeps every other
/// character, which is stated.
#[verifier::external_body]
fn to_lower(s: &str) -> (r: String)
    ensures
        r@ == lowercase(s@),
        is_ascii_text(s@) ==> r@ == ascii_lower(s@),
{
    s.to_lowercase()
}

/// A lower-case folder name that marks support material rather than the
/// game (installers, redistributables, DirectX).
pub open spec fn support_dir_name(lower: Seq<char>) -> bool {
    ||| has_substring(lower, "support"@)
    ||| has_substring(lower, "__support"@)
    ||| has_substring(lower, "directx"@)
    ||| has_substring(lower, "redist"@)
    ||| has_substring(lower, "vcredist"@)
    ||| has_substring(lower, "_commonredist"@)
}

/// A lower-case file name of a Windows executable that is not an
/// uninstaller, installer, crash reporter or runtime installer.
pub open spec fn game_exe_name(lower: Seq<char>) -> bool {
    &&& has_suffix(lower, ".exe"@)
    &&& !has_substring(lower, "unins"@)
    &&& !has_substring(lower, "setup"@)
    &&& !has_substring(lower, "install"@)
    &&& !has_substring(lower, "crash"@)
    &&& !has_substring(lower, "report"@)
    &&& !has_substring(lower, "vc_redist"@)
    &&& !has_substring(lower, "dxsetup"@)
    &&& !has_substring(lower, "dotnet"@)
}

/// Whether a lower-case folder name marks support material.
pub fn is_support_dir_lower(lower: &str) -> (r: bool)
    ensures
        r == support_dir_name(lower@),
{
    contains_str(lower, "support") || contains_str(lower, "__support") || contains_str(
        lower,
        "directx",
    ) || contains_str(lower, "redist") || contains_str(lower, "vcredist") || contains_str(
        lower,
        "_commonredist",
    )
}

/// Whether a lower-case file name is a game executable.
pub fn is_game_exe_lower(lower: &str) -> (r: bool)
    ensures
        r == game_exe_name(lower@),
{
    ends_with_str(lower, ".exe") && !contains_str(lower, "unins") && !contains_str(lower, "setup")
        && !contains_str(lower, "install") && !contains_str(lower, "crash") && !contains_str(
        lower,
        "report",
    ) && !contains_str(lower, "vc_redist") && !contains_str(lower, "dxsetup") && !contains_str(
        lower,
        "dotnet",
    )
}

/// Whether the scan skips a folder of this name (compared in lower case).
pub fn is_skipped_dir(name: &str) -> (r: bool)
    ensures
        r == support_dir_name(lowercase(name@)),
        is_ascii_text(name@) ==> r == support_dir_name(ascii_lower(name@)),
{
    let lower = to_lower(name);
    is_support_dir_lower(lower.as_str())
}

/// Whether a file of this name is listed as a game executable (compared in
/// lower case).
pub fn is_game_executable(name: &str) -> (r: bool)
    ensures
        r == game_exe_name(lowercase(name@)),
        is_ascii_text(name@) ==> r == game_exe_name(ascii_lower(name@)),
{
    let lower = to_lower(name);
    is_game_exe_lower(lower.as_str())
}

/// A path relative to the game folder: the name alone at the top, else the
/// folder, a '/', and the name.
pub open spec fn relative_path(dir: Seq<char>, name: Seq<char>) -> Seq<char> {
    if dir.len() == 0 {
        name
    } else {
        dir + "/"@ + name
    }
}

/// The relative path of an entry found in the folder `dir`.
pub fn join_relative(dir: &str, name: &str) -> (r: String)
    ensures
        r@ == relative_path(dir@, name@),
{
    if dir.unicode_len() == 0 {
        name.to_owned()
    } else {
        let mut r = dir.to_owned();
        r.append("/");
        r.append(name);
        r
    }
}

/// The folder on disk to read for the relative folder `dir` of the game
/// folder `base`.
pub fn scan_folder(base: &str, dir: &str) -> (r: String)
    ensures
        r@ == if dir@.len() == 0 { base@ } else { base@ + "/"@ + dir@ },
{
    if dir.unicode_len() == 0 {
        base.to_owned()
    } else {
        let mut r = base.to_owned();
        r.append("/");
        r.append(dir);
        r
    }
}

/// What the scan does with an entry of a folder.
#[derive(Clone, Debug, PartialEq, Eq)]
pub enum ScanStep {
    /// Enter this folder (a relative path) later.
    Enter(String),
    /// List this executable (a relative path).
    List(String),
    /// Leave the entry alone.
    Pass,
}

/// The abstract value of a scan step.
pub enum ScanStepView {
    Enter(Seq<char>),
    List(Seq<char>),
    Pass,
}

impl View for ScanStep {
    type V = ScanStepView;

    open spec fn view(&self) -> ScanStepView {
        match self {
            ScanStep::Enter(p) => ScanStepView::Enter(p@),
            ScanStep::List(p) => ScanStepView::List(p@),
            ScanStep::Pass => ScanStepView::Pass,
        }
    }
}

/// What the scan does with the entry `name` found in the relative folder
/// `dir`: folders are entered unless they are support material, files are
/// listed when they are game executables.
pub fn classify_entry(dir: &str, name: &str, is_dir: bool, is_file: bool) -> (r: ScanStep)
    ensures
        r@ == if is_dir {
            if support_dir_name(lowercase(name@)) {
                ScanStepView::Pass
            } else {
                ScanStepView::Enter(relative_path(dir@, name@))
            }
        } else if is_file && game_exe_name(lowercase(name@)) {
            ScanStepView::List(relative_path(dir@, name@))
        } else {
            ScanStepView::Pass
        },
        is_ascii_text(name@) ==> r@ == if is_dir {
            if support_dir_name(ascii_lower(name@)) {
                ScanStepView::Pass
            } else {
                ScanStepView::Enter(relative_path(dir@, name@))
            }
        } else if is_file && game_exe_name(ascii_lower(name@)) {
            ScanStepView::List(relative_path(dir@, name@))
        } else {
            ScanStepView::Pass
        },
{
    if is_dir {
        if is_skipped_dir(name) {
            ScanStep::Pass
        } else {
            ScanStep::Enter(join_relative(dir, name))
        }
    } else if is_file && is_game_executable(name) {
        ScanStep::List(join_relative(dir, name))
    } else {
        ScanStep::Pass
    }
}

/// Helper programs are never listed: a lower-case name that contains
/// "unins", "setup", "install", "crash", "report", "vc_redist", "dxsetup" or
/// "dotnet" is not a game executable, whatever else it holds.
pub proof fn law_helper_programs_not_listed(lower: Seq<char>)
    requires
        has_substring(lower, "unins"@) || has_substring(lower, "setup"@) || has_substring(lower, "install"@)
            || has_substring(lower, "crash"@) || has_substring(lower, "report"@) || has_substring(
            lower,
            "vc_redist"@,
        ) || has_substring(lower, "dxsetup"@) || has_substring(lower, "dotnet"@),
    ensures
        !game_exe_name(lower),
{
}

/// Only Windows executables are listed: a lower-case name that is a game
/// executable ends in ".exe".
pub proof fn law_listed_names_are_exe(lower: Seq<char>)
    requires
        game_exe_name(lower),
    ensures
        has_suffix(lower, ".exe"@),
{
}

/// Support folders are never entered: a lower-case folder name that contains
/// "support", "directx" or "redist" marks support material.
pub proof fn law_support_folders_skipped(lower: Seq<char>)
    requires
        has_substring(lower, "support"@) || has_substring(lower, "directx"@) || has_substring(lower, "redist"@),
    ensures
        support_dir_name(lower),
{
}

} // verus!
