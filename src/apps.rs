//! The uninstall-record lookups: product ids of MSI installs, command lines of
//! native uninstallers, and the details of one installed application.
use vstd::prelude::*;
use vstd::string::*;
use crate::text::{
    after_last, after_last_exec, contains, contains_exec, contains_ci, contains_ignore_ascii_case,
    replace_all, replace_all_exec, split_exec, split_on, starts_with, starts_with_exec, views,
};
use crate::entries::{collect, entries_view, keys_distinct, lemma_collect_distinct, upsert_exec};
use crate::registry::RegistryError;

verus! {

/// What one child key of an uninstall root holds, as read from the store.
/// A value that is absent or could not be read is `None`.
pub struct UninstallRecord {
    /// `DisplayName`, read as a string value.
    pub display_name: Option<String>,
    /// `UninstallString`, read as a raw value and rendered as text.
    pub uninstall_raw: Option<String>,
    /// `UninstallString`, read as a string value.
    pub uninstall_string: Option<String>,
    pub install_location: Option<String>,
    pub install_source: Option<String>,
    pub display_icon: Option<String>,
}

/// The pair of store locations where installers register their uninstall records.
pub struct Applications {
    app_paths: Vec<String>,
}

pub open spec fn native_uninstall_root() -> Seq<char> {
    "SOFTWARE\\Microsoft\\Windows\\CurrentVersion\\Uninstall"@
}

pub open spec fn compat_uninstall_root() -> Seq<char> {
    "SOFTWARE\\Wow6432Node\\Microsoft\\Windows\\CurrentVersion\\Uninstall"@
}

/// The uninstall string with the MSI install flag turned into the removal flag,
/// escaped quotes unescaped, and the remaining double quotes made single.
pub open spec fn msi_normalized(raw: Seq<char>) -> Seq<char> {
    replace_all(
        replace_all(replace_all(raw, "/I{"@, "/X{"@), "\\\""@, "\""@),
        "\""@,
        "'"@,
    )
}

/// The product-id entry that one record contributes, if any.
pub open spec fn product_entry(r: UninstallRecord, app: Seq<char>) -> Option<(Seq<char>, Seq<char>)> {
    match (r.display_name, r.uninstall_raw) {
        (Some(name), Some(raw)) => {
            let norm = msi_normalized(raw@);
            if contains(norm, "/X{"@) && contains_ci(name@, app) {
                Some((name@, after_last(norm, "/X"@)))
            } else {
                None
            }
        },
        _ => None,
    }
}

pub open spec fn product_ids(recs: Seq<UninstallRecord>, app: Seq<char>) -> Seq<(Seq<char>, Seq<char>)> {
    collect(recs.map_values(|r: UninstallRecord| product_entry(r, app)))
}

/// The command line of a native uninstaller: the executable alone when the
/// text ends in a quote, else the parts between quote-space boundaries.
pub open spec fn command_parts(rest: Seq<char>) -> Seq<Seq<char>> {
    if rest.len() > 0 && rest.last() == '"' {
        seq![replace_all(rest, "\""@, ""@)]
    } else {
        split_on(rest, "\" "@)
    }
}

/// The uninstall-command entry that one record contributes, if any.
pub open spec fn command_entry(r: UninstallRecord, app: Seq<char>) -> Option<(Seq<char>, Seq<Seq<char>>)> {
    match (r.display_name, r.uninstall_raw) {
        (Some(name), Some(raw)) => {
            let s = replace_all(raw@, "\\\""@, "\""@);
            if s.len() == 0 || starts_with(s, "MsiExec.exe"@) || !contains_ci(name@, app) {
                None
            } else {
                Some((name@, command_parts(s.drop_first())))
            }
        },
        _ => None,
    }
}

pub open spec fn uninstall_commands(recs: Seq<UninstallRecord>, app: Seq<char>) -> Seq<(Seq<char>, Seq<Seq<char>>)> {
    collect(recs.map_values(|r: UninstallRecord| command_entry(r, app)))
}

pub open spec fn name_matches(r: UninstallRecord, app: Seq<char>) -> bool {
    r.display_name is Some && contains_ci(r.display_name->0@, app)
}

pub open spec fn field(name: Seq<char>, v: Option<String>) -> Seq<(Seq<char>, Seq<char>)> {
    match v {
        Some(s) => seq![(name, s@)],
        None => Seq::empty(),
    }
}

/// The details of a record: the fields that are present, then its display name.
pub open spec fn details_of(r: UninstallRecord) -> Seq<(Seq<char>, Seq<char>)> {
    field("UninstallString"@, r.uninstall_string) + field("InstallLocation"@, r.install_location)
        + field("InstallSource"@, r.install_source) + field("DisplayIcon"@, r.display_icon)
        + seq![("DisplayName"@, r.display_name->0@)]
}

/// `i` is the first record whose display name matches.
pub open spec fn first_match(recs: Seq<UninstallRecord>, app: Seq<char>, i: int) -> bool {
    0 <= i < recs.len() && name_matches(recs[i], app) && forall|j: int|
        0 <= j < i ==> !name_matches(#[trigger] recs[j], app)
}

impl Default for Applications {
    fn default() -> (r: Applications)
        ensures
            r.paths() == seq![native_uninstall_root(), compat_uninstall_root()],
    {
        Applications::new()
    }
}

impl Applications {
    pub closed spec fn paths(&self) -> Seq<Seq<char>> {
        views(self.app_paths@)
    }

    /// The native and the 32-bit-compatibility uninstall roots under the local-machine root.
    pub fn new() -> (r: Applications)
        ensures
            r.paths() == seq![native_uninstall_root(), compat_uninstall_root()],
    {
        let mut app_paths: Vec<String> = Vec::new();
        app_paths.push(String::from_str("SOFTWARE\\Microsoft\\Windows\\CurrentVersion\\Uninstall"));
        app_paths.push(
            String::from_str("SOFTWARE\\Wow6432Node\\Microsoft\\Windows\\CurrentVersion\\Uninstall"),
        );
        let r = Applications { app_paths };
        assert(r.paths() =~= seq![native_uninstall_root(), compat_uninstall_root()]);
        r
    }

    /// The roots whose immediate children are the uninstall records, in enumeration order.
    pub fn uninstall_roots(&self) -> (r: &Vec<String>)
        ensures
            views(r@) == self.paths(),
    {
        &self.app_paths
    }

    /// The product id that one record contributes, keyed by its display name.
    pub fn product_id_of(record: &UninstallRecord, app: &str) -> (r: Option<(String, String)>)
        ensures
            match r {
                Some(e) => product_entry(*record, app@) == Some((e.0@, e.1@)),
                None => product_entry(*record, app@) is None,
            },
    {
        match (&record.display_name, &record.uninstall_raw) {
            (Some(name), Some(raw)) => {
                proof {
                    reveal_strlit("/I{");
                    reveal_strlit("\\\"");
                    reveal_strlit("\"");
                    reveal_strlit("/X");
                }
                let a = replace_all_exec(raw.as_str(), "/I{", "/X{");
                let b = replace_all_exec(a.as_str(), "\\\"", "\"");
                let norm = replace_all_exec(b.as_str(), "\"", "'");
                if contains_exec(norm.as_str(), "/X{") && contains_ignore_ascii_case(
                    name.as_str(),
                    app,
                ) {
                    let id = after_last_exec(norm.as_str(), "/X");
                    Some((name.clone(), id))
                } else {
                    None
                }
            },
            _ => None,
        }
    }

    /// The uninstall command line that one record contributes, keyed by its display name.
    pub fn exe_command_of(record: &UninstallRecord, app: &str) -> (r: Option<(String, Vec<String>)>)
        ensures
            match r {
                Some(e) => command_entry(*record, app@) == Some((e.0@, views(e.1@))),
                None => command_entry(*record, app@) is None,
            },
    {
        match (&record.display_name, &record.uninstall_raw) {
            (Some(name), Some(raw)) => {
                proof {
                    reveal_strlit("\\\"");
                    reveal_strlit("\"");
                    reveal_strlit("\" ");
                }
                let s = replace_all_exec(raw.as_str(), "\\\"", "\"");
                let n = s.as_str().unicode_len();
                if n == 0 || starts_with_exec(s.as_str(), "MsiExec.exe")
                    || !contains_ignore_ascii_case(name.as_str(), app) {
                    return None;
                }
                let rest = s.as_str().substring_char(1, n);
                assert(rest@ =~= s@.drop_first());
                let parts = if n > 1 && rest.get_char(n - 2) == '"' {
                    let mut one: Vec<String> = Vec::new();
                    one.push(replace_all_exec(rest, "\"", ""));
                    assert(views(one@) =~= seq![replace_all(rest@, "\""@, ""@)]);
                    one
                } else {
                    split_exec(rest, "\" ")
                };
                Some((name.clone(), parts))
            },
            _ => None,
        }
    }

    /// Product ids of the MSI installs whose display name contains `app`,
    /// ignoring ASCII case, keyed by display name.
    pub fn find_msi_product_id(&self, records: &Vec<UninstallRecord>, app: &str) -> (r: Result<
        Vec<(String, String)>,
        RegistryError,
    >)
        ensures
            match r {
                Ok(m) => entries_view(m@) == product_ids(records@, app@) && m@.len() > 0
                    && keys_distinct(entries_view(m@)),
                Err(e) => e == RegistryError::NotFound && product_ids(records@, app@).len() == 0,
            },
    {
        let ghost entries = records@.map_values(|r: UninstallRecord| product_entry(r, app@));
        let mut out: Vec<(String, String)> = Vec::new();
        let mut i: usize = 0;
        while i < records.len()
            invariant
                i <= records@.len(),
                entries == records@.map_values(|r: UninstallRecord| product_entry(r, app@)),
                entries_view(out@) == collect(entries.take(i as int)),
            decreases records@.len() - i,
        {
            assert(entries.take(i + 1).drop_last() =~= entries.take(i as int));
            if let Some(e) = Self::product_id_of(&records[i], app) {
                upsert_exec(&mut out, e.0, e.1);
            }
            i += 1;
        }
        assert(entries.take(i as int) =~= entries);
        proof {
            lemma_collect_distinct(entries);
        }
        if out.len() == 0 {
            Err(RegistryError::NotFound)
        } else {
            Ok(out)
        }
    }

    /// Command lines of the native uninstallers whose display name contains `app`,
    /// ignoring ASCII case, keyed by display name.
    pub fn find_exe_uninstall_string(&self, records: &Vec<UninstallRecord>, app: &str) -> (r: Result<
        Vec<(String, Vec<String>)>,
        RegistryError,
    >)
        ensures
            match r {
                Ok(m) => entries_view(m@) == uninstall_commands(records@, app@) && m@.len() > 0
                    && keys_distinct(entries_view(m@)),
                Err(e) => e == RegistryError::NotFound && uninstall_commands(records@, app@).len()
                    == 0,
            },
    {
        let ghost entries = records@.map_values(|r: UninstallRecord| command_entry(r, app@));
        let mut out: Vec<(String, Vec<String>)> = Vec::new();
        let mut i: usize = 0;
        while i < records.len()
            invariant
                i <= records@.len(),
                entries == records@.map_values(|r: UninstallRecord| command_entry(r, app@)),
                entries_view(out@) == collect(entries.take(i as int)),
            decreases records@.len() - i,
        {
            assert(entries.take(i + 1).drop_last() =~= entries.take(i as int));
            if let Some(e) = Self::exe_command_of(&records[i], app) {
                assert(e.1.deep_view() =~= views(e.1@));
                upsert_exec(&mut out, e.0, e.1);
            }
            i += 1;
        }
        assert(entries.take(i as int) =~= entries);
        proof {
            lemma_collect_distinct(entries);
        }
        if out.len() == 0 {
            Err(RegistryError::NotFound)
        } else {
            Ok(out)
        }
    }

    /// The details of the first record whose display name contains `app`,
    /// ignoring ASCII case.
    pub fn find_app_details(&self, records: &Vec<UninstallRecord>, app: &str) -> (r: Result<
        Vec<(String, String)>,
        RegistryError,
    >)
        ensures
            match r {
                Ok(d) => exists|i: int|
                    first_match(records@, app@, i) && entries_view(d@) == details_of(records@[i]),
                Err(e) => e == RegistryError::NotFound && forall|i: int|
                    0 <= i < records@.len() ==> !name_matches(#[trigger] records@[i], app@),
            },
    {
        let mut i: usize = 0;
        while i < records.len()
            invariant
                i <= records@.len(),
                forall|j: int| 0 <= j < i ==> !name_matches(#[trigger] records@[j], app@),
            decreases records@.len() - i,
        {
            let rec = &records[i];
            if let Some(name) = &rec.display_name {
                if contains_ignore_ascii_case(name.as_str(), app) {
                    let mut d: Vec<(String, String)> = Vec::new();
                    if let Some(v) = &rec.uninstall_string {
                        d.push((String::from_str("UninstallString"), v.clone()));
                    }
                    let ghost d1 = d@;
                    if let Some(v) = &rec.install_location {
                        d.push((String::from_str("InstallLocation"), v.clone()));
                    }
                    let ghost d2 = d@;
                    if let Some(v) = &rec.install_source {
                        d.push((String::from_str("InstallSource"), v.clone()));
                    }
                    let ghost d3 = d@;
                    if let Some(v) = &rec.display_icon {
                        d.push((String::from_str("DisplayIcon"), v.clone()));
                    }
                    let ghost d4 = d@;
                    d.push((String::from_str("DisplayName"), name.clone()));
                    proof {
                        let r = records@[i as int];
                        assert(entries_view(d1) =~= field("UninstallString"@, r.uninstall_string));
                        assert(entries_view(d2) =~= field("UninstallString"@, r.uninstall_string)
                            + field("InstallLocation"@, r.install_location));
                        assert(entries_view(d3) =~= field("UninstallString"@, r.uninstall_string)
                            + field("InstallLocation"@, r.install_location) + field(
                            "InstallSource"@,
                            r.install_source,
                        ));
                        assert(entries_view(d4) =~= field("UninstallString"@, r.uninstall_string)
                            + field("InstallLocation"@, r.install_location) + field(
                            "InstallSource"@,
                            r.install_source,
                        ) + field("DisplayIcon"@, r.display_icon));
                        assert(entries_view(d@) =~= details_of(r));
                        assert(first_match(records@, app@, i as int));
                    }
                    return Ok(d);
                }
            }
            i += 1;
        }
        Err(RegistryError::NotFound)
    }
}

} // verus!
