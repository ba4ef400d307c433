//! Locating the client's own per-profile plugin-config files, so that one profile's settings
//! can be copied onto another's.
//!
//! The client keeps each settings profile as a `.properties` file named
//! `<profile-key>-<numeric-id>.properties`, where the numeric id is assigned by the client when
//! the profile is first launched; a file is therefore found by its `<profile-key>-` prefix. The
//! directory is read and the file copied by the caller; this module decides which files.

use vstd::prelude::*;
use crate::text::{chars_of, concat3_str, concat_str};

verus! {

/// Failures of copying profile settings.
#[derive(Debug, Clone, PartialEq, Eq)]
pub enum RuneLiteConfigError {
    /// The profile directory could not be read or the file not copied; the text describes why.
    Io(String),
    /// No settings file exists for this profile key (it has not been launched yet).
    ProfileNotFound(String),
}

impl RuneLiteConfigError {
    /// The text that describes the failure.
    pub fn message(&self) -> (r: String)
        ensures
            r@ == match self {
                RuneLiteConfigError::Io(e) => "failed to read RuneLite's profile directory: "@ + e@,
                RuneLiteConfigError::ProfileNotFound(k) => "no RuneLite profile file found for \""@ + k@
                    + "\" — has it been launched at least once?"@,
            },
    {
        match self {
            RuneLiteConfigError::Io(e) => concat_str(
                "failed to read RuneLite's profile directory: ",
                e.as_str(),
            ),
            RuneLiteConfigError::ProfileNotFound(k) => concat3_str(
                "no RuneLite profile file found for \"",
                k.as_str(),
                "\" — has it been launched at least once?",
            ),
        }
    }
}

/// The profile key of the client's default settings profile.
pub const DEFAULT_PROFILE_KEY: &'static str = "default";

/// The extension of a settings file.
pub const PROPERTIES_SUFFIX: &'static str = ".properties";

/// Whether `name` is a settings file of the profile `key`: it starts with `key-` and ends with
/// `.properties`.
pub open spec fn is_profile_file(name: Seq<char>, key: Seq<char>) -> bool {
    let prefix = key.push('-');
    &&& prefix.len() <= name.len()
    &&& name.take(prefix.len() as int) == prefix
    &&& PROPERTIES_SUFFIX@.len() <= name.len()
    &&& name.skip(name.len() - PROPERTIES_SUFFIX@.len()) == PROPERTIES_SUFFIX@
}

/// The index of the first of `names` that is a settings file of `key`.
pub open spec fn first_profile_file(names: Seq<Seq<char>>, key: Seq<char>) -> Option<int> {
    if exists|i: int| 0 <= i < names.len() && is_profile_file(#[trigger] names[i], key) {
        Some(
            choose|i: int|
                0 <= i < names.len() && is_profile_file(#[trigger] names[i], key) && forall|j: int|
                    0 <= j < i ==> !is_profile_file(#[trigger] names[j], key),
        )
    } else {
        None
    }
}

/// A file named `key-<id>.properties` is a settings file of profile `key`, whatever `<id>` is.
pub proof fn lemma_named_file_is_profile_file(key: Seq<char>, id: Seq<char>)
    ensures
        is_profile_file(key.push('-') + id + PROPERTIES_SUFFIX@, key),
{
    reveal_strlit(".properties");
    let name = key.push('-') + id + PROPERTIES_SUFFIX@;
    assert(name.take(key.len() + 1int) =~= key.push('-'));
    assert(name.skip(name.len() - PROPERTIES_SUFFIX@.len()) =~= PROPERTIES_SUFFIX@);
}

/// The file chosen for a key is the first one of the listing that belongs to it, and a key
/// with no file has none; a copy reports a missing source before a missing destination, and
/// otherwise reads the source's file and overwrites the destination's.
pub proof fn lemma_copy_plan_choice(names: Seq<Seq<char>>, source_key: Seq<char>, dest_key: Seq<char>)
    ensures
        match first_profile_file(names, source_key) {
            Some(i) => {
                &&& 0 <= i < names.len()
                &&& is_profile_file(names[i], source_key)
                &&& forall|j: int| 0 <= j < i ==> !is_profile_file(#[trigger] names[j], source_key)
            },
            None => forall|j: int|
                0 <= j < names.len() ==> !is_profile_file(#[trigger] names[j], source_key),
        },
        first_profile_file(names, source_key) is None ==> copy_plan(names, source_key, dest_key)
            == Err::<(int, int), Seq<char>>(source_key),
        first_profile_file(names, source_key) is Some && first_profile_file(names, dest_key) is None
            ==> copy_plan(names, source_key, dest_key) == Err::<(int, int), Seq<char>>(dest_key),
        (first_profile_file(names, source_key) is Some && first_profile_file(names, dest_key) is Some)
            ==> copy_plan(names, source_key, dest_key) == Ok::<(int, int), Seq<char>>(
            (first_profile_file(names, source_key)->0, first_profile_file(names, dest_key)->0),
        ),
{
    if exists|i: int| 0 <= i < names.len() && is_profile_file(#[trigger] names[i], source_key) {
        lemma_first_match_exists(names, source_key);
    }
}

/// Where some file belongs to `key`, a first such file exists.
proof fn lemma_first_match_exists(names: Seq<Seq<char>>, key: Seq<char>)
    requires
        exists|i: int| 0 <= i < names.len() && is_profile_file(#[trigger] names[i], key),
    ensures
        exists|i: int|
            0 <= i < names.len() && is_profile_file(#[trigger] names[i], key) && forall|j: int|
                0 <= j < i ==> !is_profile_file(#[trigger] names[j], key),
    decreases names.len(),
{
    let w = choose|i: int| 0 <= i < names.len() && is_profile_file(#[trigger] names[i], key);
    if exists|i: int| 0 <= i < w && is_profile_file(#[trigger] names[i], key) {
        let v = choose|i: int| 0 <= i < w && is_profile_file(#[trigger] names[i], key);
        assert(names.take(w)[v] == names[v]);
        lemma_first_match_exists(names.take(w), key);
        let f = choose|i: int|
            0 <= i < names.take(w).len() && is_profile_file(#[trigger] names.take(w)[i], key)
                && forall|j: int| 0 <= j < i ==> !is_profile_file(#[trigger] names.take(w)[j], key);
        assert(names.take(w)[f] == names[f]);
        assert forall|j: int| 0 <= j < f implies !is_profile_file(#[trigger] names[j], key) by {
            assert(names.take(w)[j] == names[j]);
        }
    } else {
        assert forall|j: int| 0 <= j < w implies !is_profile_file(#[trigger] names[j], key) by {}
    }
}

/// The views of a list of strings.
pub open spec fn names_view(v: Seq<String>) -> Seq<Seq<char>> {
    Seq::new(v.len(), |i: int| v[i]@)
}

fn is_profile_file_exec(name: &Vec<char>, key: &Vec<char>, suffix: &Vec<char>) -> (r: bool)
    requires
        suffix@ == PROPERTIES_SUFFIX@,
    ensures
        r == is_profile_file(name@, key@),
{
    let ghost prefix = key@.push('-');
    if key.len() >= name.len() {
        return false;
    }
    let mut i: usize = 0;
    while i < key.len()
        invariant
            i <= key.len() < name.len(),
            prefix == key@.push('-'),
            forall|j: int| 0 <= j < i ==> name@[j] == key@[j],
        decreases key.len() - i,
    {
        if name[i] != key[i] {
            assert(name@.take(prefix.len() as int)[i as int] != prefix[i as int]);
            return false;
        }
        i += 1;
    }
    if name[key.len()] != '-' {
        assert(name@.take(prefix.len() as int)[key.len() as int] != prefix[key.len() as int]);
        return false;
    }
    assert(name@.take(prefix.len() as int) =~= prefix);
    if suffix.len() > name.len() {
        return false;
    }
    let start = name.len() - suffix.len();
    let mut k: usize = 0;
    while k < suffix.len()
        invariant
            k <= suffix.len() <= name.len(),
            start == name.len() - suffix.len(),
            suffix@ == PROPERTIES_SUFFIX@,
            forall|j: int| 0 <= j < k ==> name@[start + j] == suffix@[j],
        decreases suffix.len() - k,
    {
        if name[start + k] != suffix[k] {
            assert(name@.skip(start as int)[k as int] != suffix@[k as int]);
            return false;
        }
        k += 1;
    }
    assert(name@.skip(start as int) =~= suffix@);
    true
}

/// Finds the settings file of `profile_key` among the file names of the profile directory (in
/// the order the directory lists them): the first that starts with `<profile_key>-` and ends with
/// `.properties`.
pub fn find_profile_file(file_names: &Vec<String>, profile_key: &str) -> (r: Result<
    String,
    RuneLiteConfigError,
>)
    ensures
        match first_profile_file(names_view(file_names@), profile_key@) {
            Some(i) => r matches Ok(n) && n@ == file_names@[i]@,
            None => r matches Err(RuneLiteConfigError::ProfileNotFound(k)) && k@ == profile_key@,
        },
{
    let key = chars_of(profile_key);
    let suffix = chars_of(PROPERTIES_SUFFIX);
    let ghost names = names_view(file_names@);
    let mut i: usize = 0;
    while i < file_names.len()
        invariant
            i <= file_names.len(),
            names == names_view(file_names@),
            key@ == profile_key@,
            suffix@ == PROPERTIES_SUFFIX@,
            forall|j: int| 0 <= j < i ==> !is_profile_file(#[trigger] names[j], key@),
        decreases file_names.len() - i,
    {
        let name = chars_of(file_names[i].as_str());
        if is_profile_file_exec(&name, &key, &suffix) {
            assert(is_profile_file(names[i as int], key@));
            let ghost w = i as int;
            assert(0 <= w < names.len() && is_profile_file(names[w], key@) && forall|j: int|
                0 <= j < w ==> !is_profile_file(#[trigger] names[j], key@));
            let ghost found = choose|k: int|
                0 <= k < names.len() && is_profile_file(#[trigger] names[k], key@) && forall|j: int|
                    0 <= j < k ==> !is_profile_file(#[trigger] names[j], key@);
            assert(found == w) by {
                if found < w {
                    assert(!is_profile_file(names[found], key@));
                } else if found > w {
                    assert(!is_profile_file(names[w], key@));
                }
            }
            return Ok(file_names[i].clone());
        }
        i += 1;
    }
    Err(RuneLiteConfigError::ProfileNotFound(String::from_str(profile_key)))
}


/// Which files a settings copy reads and overwrites: the settings file of `source_key` and that
/// of `dest_key`, each the first match among `file_names`; a missing source is reported before a
/// missing destination.
pub open spec fn copy_plan(names: Seq<Seq<char>>, source_key: Seq<char>, dest_key: Seq<char>) -> Result<
    (int, int),
    Seq<char>,
> {
    match first_profile_file(names, source_key) {
        None => Err(source_key),
        Some(i) => match first_profile_file(names, dest_key) {
            None => Err(dest_key),
            Some(j) => Ok((i, j)),
        },
    }
}

/// The files that copying `source_key`'s plugin config onto `dest_key`'s involves, in the
/// profile directory listed by `file_names`: `(source file, destination file)`. The destination's
/// settings are then fully overwritten by the caller. Both profiles must have been launched once,
/// so that their files exist; otherwise the missing key is reported.
pub fn copy_profile_settings(file_names: &Vec<String>, source_key: &str, dest_key: &str) -> (r:
    Result<(String, String), RuneLiteConfigError>)
    ensures
        match copy_plan(names_view(file_names@), source_key@, dest_key@) {
            Ok((i, j)) => r matches Ok((a, b)) && a@ == file_names@[i]@ && b@ == file_names@[j]@,
            Err(k) => r matches Err(RuneLiteConfigError::ProfileNotFound(m)) && m@ == k,
        },
{
    let source = find_profile_file(file_names, source_key)?;
    let dest = find_profile_file(file_names, dest_key)?;
    Ok((source, dest))
}

/// The files that copying the client's `default` profile onto `dest_key` involves.
pub fn copy_profile_settings_from_default(file_names: &Vec<String>, dest_key: &str) -> (r: Result<
    (String, String),
    RuneLiteConfigError,
>)
    ensures
        match copy_plan(names_view(file_names@), DEFAULT_PROFILE_KEY@, dest_key@) {
            Ok((i, j)) => r matches Ok((a, b)) && a@ == file_names@[i]@ && b@ == file_names@[j]@,
            Err(k) => r matches Err(RuneLiteConfigError::ProfileNotFound(m)) && m@ == k,
        },
{
    copy_profile_settings(file_names, DEFAULT_PROFILE_KEY, dest_key)
}

} // verus!
