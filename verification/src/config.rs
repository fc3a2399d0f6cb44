//! Where a backup of the palette is kept.

use vstd::prelude::*;
use vstd::string::StringExecFns;

verus! {

/// The ending of a backup's file name.
pub open spec fn backup_suffix() -> Seq<char> {
    ".rtc_colours"@
}

/// The file name of the backup called `name`, and of the backup without a
/// name.
pub open spec fn backup_file_name(name: Option<Seq<char>>) -> Seq<char> {
    match name {
        Some(n) => n + backup_suffix(),
        None => "default"@ + backup_suffix(),
    }
}

/// The path of a backup inside the directory that holds the backups: the
/// backup's name, or `default` where it has none, with `.rtc_colours` behind
/// it.
pub fn get_colours_backup_path(backup_name: &Option<String>) -> (path: String)
    ensures
        path@ == backup_file_name(
            match backup_name {
                Some(n) => Some(n@),
                None => None,
            },
        ),
{
    let mut path = match backup_name {
        Some(name) => name.clone(),
        None => "default".to_owned(),
    };
    path.append(".rtc_colours");
    path
}

} // verus!
