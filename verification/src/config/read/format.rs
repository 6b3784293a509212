//! The textual formats a configuration file can use, which file names are
//! searched, and which format a file name implies.

use vstd::prelude::*;

use crate::text::{chars_equal_str, chars_of_str};

verus! {

/// A configuration text format.  `CargoMetadata` stands for the
/// `package.metadata` / `workspace.metadata` table inside `Cargo.toml`.
#[derive(Debug, Clone, Copy, PartialEq, Eq, Structural)]
pub enum ConfigFormat {
    Json,
    Yaml,
    Ron,
    Toml,
    CargoMetadata,
}

/// A configuration value together with where and in which format it was
/// found.
pub struct ConfigFileData<T> {
    pub filename: String,
    pub format: ConfigFormat,
    pub data: T,
}

/// The file-name suffixes that are searched, in search order, and the
/// format each one implies.
pub open spec fn extension_table() -> Seq<(ConfigFormat, Seq<char>)> {
    seq![
        (ConfigFormat::Json, ".json"@),
        (ConfigFormat::Yaml, ".yml"@),
        (ConfigFormat::Yaml, ".yaml"@),
        (ConfigFormat::Ron, ".ron"@),
        (ConfigFormat::Toml, ".toml"@),
    ]
}

/// The candidate file names for an application: the application name with
/// each searched suffix, in search order.
pub fn config_file_candidates(app_name: &str) -> (r: Vec<(ConfigFormat, String)>)
    ensures
        r@.len() == extension_table().len(),
        forall|i: int|
            0 <= i < r@.len() ==> #[trigger] r@[i].0 == extension_table()[i].0 && r@[i].1@
                == app_name@ + extension_table()[i].1,
{
    let mut r: Vec<(ConfigFormat, String)> = Vec::new();
    r.push((ConfigFormat::Json, app_name.to_owned().concat(".json")));
    r.push((ConfigFormat::Yaml, app_name.to_owned().concat(".yml")));
    r.push((ConfigFormat::Yaml, app_name.to_owned().concat(".yaml")));
    r.push((ConfigFormat::Ron, app_name.to_owned().concat(".ron")));
    r.push((ConfigFormat::Toml, app_name.to_owned().concat(".toml")));
    r
}

/// Whether `s` ends with `suffix`.
pub open spec fn has_suffix(s: Seq<char>, suffix: Seq<char>) -> bool {
    s.len() >= suffix.len() && s.skip(s.len() - suffix.len()) == suffix
}

fn str_ends_with(v: &Vec<char>, suffix: &str) -> (b: bool)
    ensures
        b == has_suffix(v@, suffix@),
{
    let m = suffix.unicode_len();
    let n = v.len();
    if n < m {
        return false;
    }
    let start = n - m;
    let mut i: usize = 0;
    while i < m
        invariant
            i <= m,
            m == suffix@.len(),
            n == v@.len(),
            m <= n,
            start == n - m,
            forall|k: int| 0 <= k < i ==> v@[start + k] == suffix@[k],
        decreases m - i,
    {
        if v[start + i] != suffix.get_char(i) {
            proof {
                assert(v@.skip(start as int)[i as int] != suffix@[i as int]);
            }
            return false;
        }
        i = i + 1;
    }
    proof {
        assert(v@.skip(start as int) =~= suffix@);
    }
    true
}

/// The format a file name implies: the metadata table for `Cargo.toml`
/// itself, else the first matching suffix of the search table, else nothing.
pub open spec fn format_of_filename(name: Seq<char>) -> Option<ConfigFormat> {
    if name == "Cargo.toml"@ {
        Some(ConfigFormat::CargoMetadata)
    } else if has_suffix(name, ".json"@) {
        Some(ConfigFormat::Json)
    } else if has_suffix(name, ".yml"@) {
        Some(ConfigFormat::Yaml)
    } else if has_suffix(name, ".yaml"@) {
        Some(ConfigFormat::Yaml)
    } else if has_suffix(name, ".ron"@) {
        Some(ConfigFormat::Ron)
    } else if has_suffix(name, ".toml"@) {
        Some(ConfigFormat::Toml)
    } else {
        None
    }
}

/// The format to parse a named file with.
pub fn format_for_filename(filename: &str) -> (r: Option<ConfigFormat>)
    ensures
        r == format_of_filename(filename@),
{
    let v = chars_of_str(filename);
    proof {
        reveal_strlit("Cargo.toml");
    }
    if chars_equal_str(&v, "Cargo.toml") {
        Some(ConfigFormat::CargoMetadata)
    } else if str_ends_with(&v, ".json") {
        Some(ConfigFormat::Json)
    } else if str_ends_with(&v, ".yml") {
        Some(ConfigFormat::Yaml)
    } else if str_ends_with(&v, ".yaml") {
        Some(ConfigFormat::Yaml)
    } else if str_ends_with(&v, ".ron") {
        Some(ConfigFormat::Ron)
    } else if str_ends_with(&v, ".toml") {
        Some(ConfigFormat::Toml)
    } else {
        None
    }
}

} // verus!
