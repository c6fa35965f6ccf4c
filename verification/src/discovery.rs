use vstd::prelude::*;

use crate::text::{
    contains_seq, contains_sub, lower_of, to_lowercase, str_eq, split_by, split_str,
    trim_of, trim, trim_char_of, trim_char, starts_with, views_of,
};

verus! {

/// One application found on the machine.
pub struct SystemApp {
    pub name: String,
    pub display_name: Option<String>,
    pub executable_path: Option<String>,
    pub icon_path: Option<String>,
    pub version: Option<String>,
    pub description: Option<String>,
    pub category: Option<String>,
    pub is_system_app: bool,
    pub is_running: bool,
    pub install_date: Option<String>,
    pub publisher: Option<String>,
    pub size: Option<u64>,
}

/// The outcome of a discovery scan.
pub struct AppDiscoveryResult {
    pub total_apps: usize,
    pub system_apps: Vec<SystemApp>,
    pub user_apps: Vec<SystemApp>,
    pub running_apps: Vec<SystemApp>,
    pub categories: Vec<String>,
    pub scan_time_ms: u64,
    pub errors: Vec<String>,
}

/// The outcome of an app search.
pub struct AppSearchResult {
    pub query: String,
    pub results: Vec<SystemApp>,
    pub total_found: usize,
    pub search_time_ms: u64,
}

/// One named category with the apps that fall under it.
pub struct AppCategory {
    pub name: String,
    pub count: usize,
    pub apps: Vec<SystemApp>,
}

/// The discovered applications, split into system, user, and running
/// lists, plus the categorized view over them.
pub struct AppDiscovery {
    pub system_apps: Vec<SystemApp>,
    pub user_apps: Vec<SystemApp>,
    pub running_apps: Vec<SystemApp>,
    pub categories: Vec<AppCategory>,
}

/// Whether an app counts as a system app: it was already marked so, its
/// executable sits in a system directory, its publisher is the platform
/// vendor, or its name carries a system word.
pub open spec fn is_system_app_spec(app: SystemApp) -> bool {
    ||| app.is_system_app
    ||| match app.executable_path {
        Some(p) => {
            let pl = lower_of(p@);
            contains_seq(pl, "\\windows\\"@) || contains_seq(pl, "\\program files\\"@)
                || contains_seq(pl, "\\system32\\"@) || contains_seq(pl, "\\syswow64\\"@)
        },
        None => false,
    }
    ||| match app.publisher {
        Some(p) => {
            let pl = lower_of(p@);
            contains_seq(pl, "microsoft"@) || contains_seq(pl, "windows"@)
                || contains_seq(pl, "system"@)
        },
        None => false,
    }
    ||| {
        let nl = lower_of(app.name@);
        contains_seq(nl, "windows"@) || contains_seq(nl, "microsoft"@)
            || contains_seq(nl, "system"@) || contains_seq(nl, "update"@)
            || contains_seq(nl, "security"@)
    }
}

/// The category an app is filed under, by fixed precedence: running
/// processes first, then an explicit category, then keywords of its
/// executable path, then the system/user default.
pub open spec fn app_category_spec(app: SystemApp) -> Seq<char> {
    if app.is_running {
        "Running Processes"@
    } else if app.category matches Some(c) && c@.len() > 0 {
        app.category.unwrap()@
    } else if app.executable_path matches Some(p) && {
        let pl = lower_of(p@);
        contains_seq(pl, "microsoft"@) || contains_seq(pl, "office"@)
    } {
        "Office & Productivity"@
    } else if app.executable_path matches Some(p) && {
        let pl = lower_of(p@);
        contains_seq(pl, "chrome"@) || contains_seq(pl, "firefox"@) || contains_seq(pl, "browser"@)
    } {
        "Web Browsers"@
    } else if app.executable_path matches Some(p) && {
        let pl = lower_of(p@);
        contains_seq(pl, "game"@) || contains_seq(pl, "steam"@) || contains_seq(pl, "epic"@)
    } {
        "Games"@
    } else if app.executable_path matches Some(p) && {
        let pl = lower_of(p@);
        contains_seq(pl, "code"@) || contains_seq(pl, "studio"@) || contains_seq(pl, "ide"@)
    } {
        "Development Tools"@
    } else if app.executable_path matches Some(p) && {
        let pl = lower_of(p@);
        contains_seq(pl, "media"@) || contains_seq(pl, "video"@) || contains_seq(pl, "audio"@)
    } {
        "Media & Entertainment"@
    } else if app.executable_path matches Some(p) && {
        let pl = lower_of(p@);
        contains_seq(pl, "system"@) || contains_seq(pl, "windows"@) || contains_seq(pl, "control"@)
    } {
        "System Tools"@
    } else if app.is_system_app {
        "System Applications"@
    } else {
        "User Applications"@
    }
}

/// Whether an app matches a lower-cased search text, by name, display
/// name, or description.
pub open spec fn app_matches_query(app: SystemApp, query_lower: Seq<char>) -> bool {
    ||| contains_seq(lower_of(app.name@), query_lower)
    ||| (app.display_name matches Some(d) && contains_seq(lower_of(d@), query_lower))
    ||| (app.description matches Some(d) && contains_seq(lower_of(d@), query_lower))
}

impl AppDiscovery {
    /// A discovery starts with nothing found.
    pub fn new() -> (s: Self)
        ensures
            s.system_apps@.len() == 0,
            s.user_apps@.len() == 0,
            s.running_apps@.len() == 0,
            s.categories@.len() == 0,
    {
        AppDiscovery {
            system_apps: Vec::new(),
            user_apps: Vec::new(),
            running_apps: Vec::new(),
            categories: Vec::new(),
        }
    }

    /// Decide whether an app counts as a system app.
    pub fn is_system_app(&self, app: &SystemApp) -> (r: bool)
        ensures
            r == is_system_app_spec(*app),
    {
        if app.is_system_app {
            return true;
        }
        match &app.executable_path {
            Some(p) => {
                let pl = to_lowercase(p.as_str());
                if contains_sub(pl.as_str(), "\\windows\\")
                    || contains_sub(pl.as_str(), "\\program files\\")
                    || contains_sub(pl.as_str(), "\\system32\\")
                    || contains_sub(pl.as_str(), "\\syswow64\\") {
                    return true;
                }
            },
            None => {},
        }
        match &app.publisher {
            Some(p) => {
                let pl = to_lowercase(p.as_str());
                if contains_sub(pl.as_str(), "microsoft") || contains_sub(pl.as_str(), "windows")
                    || contains_sub(pl.as_str(), "system") {
                    return true;
                }
            },
            None => {},
        }
        let nl = to_lowercase(app.name.as_str());
        contains_sub(nl.as_str(), "windows") || contains_sub(nl.as_str(), "microsoft")
            || contains_sub(nl.as_str(), "system") || contains_sub(nl.as_str(), "update")
            || contains_sub(nl.as_str(), "security")
    }

    /// File an app under its category.
    pub fn determine_app_category(&self, app: &SystemApp) -> (r: String)
        ensures
            r@ == app_category_spec(*app),
    {
        if app.is_running {
            return String::from_str("Running Processes");
        }
        match &app.category {
            Some(c) => {
                if c.as_str().unicode_len() > 0 {
                    return c.clone();
                }
            },
            None => {},
        }
        match &app.executable_path {
            Some(p) => {
                let pl = to_lowercase(p.as_str());
                if contains_sub(pl.as_str(), "microsoft") || contains_sub(pl.as_str(), "office") {
                    return String::from_str("Office & Productivity");
                }
                if contains_sub(pl.as_str(), "chrome") || contains_sub(pl.as_str(), "firefox")
                    || contains_sub(pl.as_str(), "browser") {
                    return String::from_str("Web Browsers");
                }
                if contains_sub(pl.as_str(), "game") || contains_sub(pl.as_str(), "steam")
                    || contains_sub(pl.as_str(), "epic") {
                    return String::from_str("Games");
                }
                if contains_sub(pl.as_str(), "code") || contains_sub(pl.as_str(), "studio")
                    || contains_sub(pl.as_str(), "ide") {
                    return String::from_str("Development Tools");
                }
                if contains_sub(pl.as_str(), "media") || contains_sub(pl.as_str(), "video")
                    || contains_sub(pl.as_str(), "audio") {
                    return String::from_str("Media & Entertainment");
                }
                if contains_sub(pl.as_str(), "system") || contains_sub(pl.as_str(), "windows")
                    || contains_sub(pl.as_str(), "control") {
                    return String::from_str("System Tools");
                }
            },
            None => {},
        }
        if app.is_system_app {
            String::from_str("System Applications")
        } else {
            String::from_str("User Applications")
        }
    }
}

/// The text-level view of a discovered app.
pub struct AppView {
    pub name: Seq<char>,
    pub display_name: Option<Seq<char>>,
    pub executable_path: Option<Seq<char>>,
    pub icon_path: Option<Seq<char>>,
    pub version: Option<Seq<char>>,
    pub description: Option<Seq<char>>,
    pub category: Option<Seq<char>>,
    pub is_system_app: bool,
    pub is_running: bool,
    pub install_date: Option<Seq<char>>,
    pub publisher: Option<Seq<char>>,
    pub size: Option<u64>,
}

/// The view of one app.
pub open spec fn app_view(a: SystemApp) -> AppView {
    AppView {
        name: a.name@,
        display_name: crate::chunker::view_opt(a.display_name),
        executable_path: crate::chunker::view_opt(a.executable_path),
        icon_path: crate::chunker::view_opt(a.icon_path),
        version: crate::chunker::view_opt(a.version),
        description: crate::chunker::view_opt(a.description),
        category: crate::chunker::view_opt(a.category),
        is_system_app: a.is_system_app,
        is_running: a.is_running,
        install_date: crate::chunker::view_opt(a.install_date),
        publisher: crate::chunker::view_opt(a.publisher),
        size: a.size,
    }
}

/// The views of a list of apps.
pub open spec fn app_views(apps: Seq<SystemApp>) -> Seq<AppView> {
    apps.map_values(|a: SystemApp| app_view(a))
}

/// `is_system_app_spec`, over an app view.
pub open spec fn view_is_system(a: AppView) -> bool {
    ||| a.is_system_app
    ||| match a.executable_path {
        Some(p) => {
            let pl = lower_of(p);
            contains_seq(pl, "\\windows\\"@) || contains_seq(pl, "\\program files\\"@)
                || contains_seq(pl, "\\system32\\"@) || contains_seq(pl, "\\syswow64\\"@)
        },
        None => false,
    }
    ||| match a.publisher {
        Some(p) => {
            let pl = lower_of(p);
            contains_seq(pl, "microsoft"@) || contains_seq(pl, "windows"@)
                || contains_seq(pl, "system"@)
        },
        None => false,
    }
    ||| {
        let nl = lower_of(a.name);
        contains_seq(nl, "windows"@) || contains_seq(nl, "microsoft"@)
            || contains_seq(nl, "system"@) || contains_seq(nl, "update"@)
            || contains_seq(nl, "security"@)
    }
}

/// Whether the lower-cased name `nl` names an app in the list, by its
/// name or its display name.
pub open spec fn name_in_apps(apps: Seq<AppView>, nl: Seq<char>) -> bool {
    exists|i: int| 0 <= i < apps.len() && (lower_of((#[trigger] apps[i]).name) == nl
        || (apps[i].display_name matches Some(d) && lower_of(d) == nl))
}

impl AppDiscovery {
    /// Whether an app of this name was already discovered, in either the
    /// system or the user list.
    pub fn app_exists(&self, app_name: &str) -> (r: bool)
        ensures
            r == (name_in_apps(app_views(self.system_apps@), lower_of(app_name@))
                || name_in_apps(app_views(self.user_apps@), lower_of(app_name@))),
    {
        let nl = to_lowercase(app_name);
        let ghost target = lower_of(app_name@);
        let mut i: usize = 0;
        while i < self.system_apps.len()
            invariant
                nl@ == target,
                target == lower_of(app_name@),
                i <= self.system_apps@.len(),
                forall|j: int| 0 <= j < i ==> !(lower_of(app_views(self.system_apps@)[j].name) == target
                    || (app_views(self.system_apps@)[j].display_name matches Some(d) && lower_of(d) == target)),
            decreases self.system_apps@.len() - i,
        {
            let a = &self.system_apps[i];
            let an = to_lowercase(a.name.as_str());
            if str_eq(an.as_str(), nl.as_str()) {
                proof {
                    assert(lower_of(app_views(self.system_apps@)[i as int].name) == target);
                }
                return true;
            }
            match &a.display_name {
                Some(d) => {
                    let dl = to_lowercase(d.as_str());
                    if str_eq(dl.as_str(), nl.as_str()) {
                        proof {
                            assert(app_views(self.system_apps@)[i as int].display_name matches Some(dd)
                                && lower_of(dd) == target);
                        }
                        return true;
                    }
                },
                None => {},
            }
            i = i + 1;
        }
        let mut k: usize = 0;
        while k < self.user_apps.len()
            invariant
                nl@ == target,
                target == lower_of(app_name@),
                k <= self.user_apps@.len(),
                forall|j: int| 0 <= j < self.system_apps@.len()
                    ==> !(lower_of(app_views(self.system_apps@)[j].name) == target
                        || (app_views(self.system_apps@)[j].display_name matches Some(d) && lower_of(d) == target)),
                forall|j: int| 0 <= j < k ==> !(lower_of(app_views(self.user_apps@)[j].name) == target
                    || (app_views(self.user_apps@)[j].display_name matches Some(d) && lower_of(d) == target)),
            decreases self.user_apps@.len() - k,
        {
            let a = &self.user_apps[k];
            let an = to_lowercase(a.name.as_str());
            if str_eq(an.as_str(), nl.as_str()) {
                proof {
                    assert(lower_of(app_views(self.user_apps@)[k as int].name) == target);
                }
                return true;
            }
            match &a.display_name {
                Some(d) => {
                    let dl = to_lowercase(d.as_str());
                    if str_eq(dl.as_str(), nl.as_str()) {
                        proof {
                            assert(app_views(self.user_apps@)[k as int].display_name matches Some(dd)
                                && lower_of(dd) == target);
                        }
                        return true;
                    }
                },
                None => {},
            }
            k = k + 1;
        }
        proof {
            if name_in_apps(app_views(self.system_apps@), target) {
                let j = choose|j: int| 0 <= j < app_views(self.system_apps@).len()
                    && (lower_of((#[trigger] app_views(self.system_apps@)[j]).name) == target
                        || (app_views(self.system_apps@)[j].display_name matches Some(d) && lower_of(d) == target));
                assert(false);
            }
            if name_in_apps(app_views(self.user_apps@), target) {
                let j = choose|j: int| 0 <= j < app_views(self.user_apps@).len()
                    && (lower_of((#[trigger] app_views(self.user_apps@)[j]).name) == target
                        || (app_views(self.user_apps@)[j].display_name matches Some(d) && lower_of(d) == target));
                assert(false);
            }
        }
        false
    }

    /// File a newly found app: classify it as system or user and append
    /// it to that list, with its system flag set accordingly.
    pub fn add_app(&mut self, app: SystemApp)
        ensures
            is_system_app_spec(app) ==> app_views(final(self).system_apps@)
                == app_views(old(self).system_apps@).push(AppView { is_system_app: true, ..app_view(app) })
                && final(self).user_apps@ == old(self).user_apps@,
            !is_system_app_spec(app) ==> app_views(final(self).user_apps@)
                == app_views(old(self).user_apps@).push(AppView { is_system_app: false, ..app_view(app) })
                && final(self).system_apps@ == old(self).system_apps@,
            final(self).running_apps@ == old(self).running_apps@,
            final(self).categories@ == old(self).categories@,
    {
        let is_system = self.is_system_app(&app);
        let mut filed = app;
        filed.is_system_app = is_system;
        if is_system {
            self.system_apps.push(filed);
            proof {
                assert(app_views(self.system_apps@)
                    =~= app_views(old(self).system_apps@).push(AppView { is_system_app: true, ..app_view(app) }));
            }
        } else {
            self.user_apps.push(filed);
            proof {
                assert(app_views(self.user_apps@)
                    =~= app_views(old(self).user_apps@).push(AppView { is_system_app: false, ..app_view(app) }));
            }
        }
    }
}

/// Copy an app record.
pub fn clone_app(a: &SystemApp) -> (r: SystemApp)
    ensures
        r == *a,
{
    SystemApp {
        name: a.name.clone(),
        display_name: crate::chunker::clone_opt(&a.display_name),
        executable_path: crate::chunker::clone_opt(&a.executable_path),
        icon_path: crate::chunker::clone_opt(&a.icon_path),
        version: crate::chunker::clone_opt(&a.version),
        description: crate::chunker::clone_opt(&a.description),
        category: crate::chunker::clone_opt(&a.category),
        is_system_app: a.is_system_app,
        is_running: a.is_running,
        install_date: crate::chunker::clone_opt(&a.install_date),
        publisher: crate::chunker::clone_opt(&a.publisher),
        size: a.size,
    }
}

/// The lines of a command's captured output: split on newlines, without
/// a final empty line.
pub open spec fn output_lines(text: Seq<char>) -> Seq<Seq<char>> {
    let fs = split_by(text, "\n"@);
    if fs.len() > 0 && fs.last().len() == 0 {
        fs.drop_last()
    } else {
        fs
    }
}

/// The process name of one task-list CSV line: the first comma-separated
/// field, without surrounding quotes or carriage returns.
pub open spec fn process_name_of(line: Seq<char>) -> Seq<char> {
    trim_char_of(split_by(trim_char_of(line, '\r'), ","@)[0], '"')
}

/// The running-process entry made for one process name.
pub open spec fn running_view(name: Seq<char>) -> AppView {
    AppView {
        name: name,
        display_name: Some(name),
        executable_path: None,
        icon_path: None,
        version: None,
        description: None,
        category: Some("Running Process"@),
        is_system_app: false,
        is_running: true,
        install_date: None,
        publisher: None,
        size: None,
    }
}

/// The running-process entries of a task list: one per line after the
/// header.
pub open spec fn running_views_of(lines: Seq<Seq<char>>) -> Seq<AppView> {
    if lines.len() <= 1 {
        Seq::empty()
    } else {
        Seq::new((lines.len() - 1) as nat, |j: int| running_view(process_name_of(lines[j + 1])))
    }
}

impl AppDiscovery {
    /// Read the running processes out of a task list in CSV form: one
    /// entry per line after the header, named by the first field.
    pub fn get_running_processes(&mut self, tasklist_csv: &str)
        ensures
            app_views(final(self).running_apps@)
                == app_views(old(self).running_apps@) + running_views_of(output_lines(tasklist_csv@)),
            final(self).system_apps@ == old(self).system_apps@,
            final(self).user_apps@ == old(self).user_apps@,
            final(self).categories@ == old(self).categories@,
    {
        proof {
            reveal_strlit("\n");
            reveal_strlit(",");
        }
        let ghost base = app_views(self.running_apps@);
        let mut fields = split_str(tasklist_csv, "\n");
        if fields.len() > 0 && fields[fields.len() - 1].as_str().unicode_len() == 0 {
            let _ = fields.pop();
            proof {
                assert(views_of(fields@) =~= output_lines(tasklist_csv@));
            }
        } else {
            proof {
                assert(views_of(fields@) =~= output_lines(tasklist_csv@));
            }
        }
        let ghost lines = views_of(fields@);
        let mut i: usize = 1;
        proof {
            assert(base + running_views_of(lines).take(0) =~= base);
        }
        while i < fields.len()
            invariant
                lines == views_of(fields@),
                base == app_views(old(self).running_apps@),
                1 <= i,
                i <= fields@.len() || fields@.len() == 0,
                fields@.len() > 1 ==> app_views(self.running_apps@)
                    == base + running_views_of(lines).take(i - 1),
                fields@.len() <= 1 ==> app_views(self.running_apps@) == base,
                self.system_apps@ == old(self).system_apps@,
                self.user_apps@ == old(self).user_apps@,
                self.categories@ == old(self).categories@,
            decreases fields@.len() - i,
        {
            proof {
                reveal_strlit(",");
            }
            let no_cr = trim_char(fields[i].as_str(), '\r');
            let parts = split_str(no_cr.as_str(), ",");
            proof {
                crate::text::lemma_split_by_nonempty(no_cr@, ","@);
            }
            let name = trim_char(parts[0].as_str(), '"');
            let app = SystemApp {
                name: name.clone(),
                display_name: Some(name),
                executable_path: None,
                icon_path: None,
                version: None,
                description: None,
                category: Some(String::from_str("Running Process")),
                is_system_app: false,
                is_running: true,
                install_date: None,
                publisher: None,
                size: None,
            };
            let ghost pre = self.running_apps@;
            self.running_apps.push(app);
            proof {
                assert(name@ == process_name_of(lines[i as int]));
                assert(app_view(self.running_apps@.last()) == running_view(process_name_of(lines[i as int])));
                assert(app_views(self.running_apps@) =~= app_views(pre).push(app_view(self.running_apps@.last())));
                assert(running_views_of(lines).take(i as int)
                    =~= running_views_of(lines).take(i - 1).push(running_view(process_name_of(lines[i as int]))));
                assert(app_views(self.running_apps@)
                    =~= base + running_views_of(lines).take(i as int));
            }
            i = i + 1;
        }
        proof {
            if lines.len() > 1 {
                assert(running_views_of(lines).take(lines.len() - 1) =~= running_views_of(lines));
            } else {
                assert(running_views_of(lines) =~= Seq::<AppView>::empty());
                assert(base + running_views_of(lines) =~= base);
            }
        }
    }
}

/// The apps whose category is exactly `cat`, in order.
pub open spec fn apps_with_category(apps: Seq<SystemApp>, cat: Seq<char>) -> Seq<SystemApp>
    decreases apps.len(),
{
    if apps.len() == 0 {
        Seq::empty()
    } else {
        let rest = apps_with_category(apps.drop_last(), cat);
        if app_category_spec(apps.last()) == cat {
            rest.push(apps.last())
        } else {
            rest
        }
    }
}

/// The distinct categories of the apps, in first-seen order.
pub open spec fn category_names(apps: Seq<SystemApp>) -> Seq<Seq<char>>
    decreases apps.len(),
{
    if apps.len() == 0 {
        Seq::empty()
    } else {
        let rest = category_names(apps.drop_last());
        if rest.contains(app_category_spec(apps.last())) {
            rest
        } else {
            rest.push(app_category_spec(apps.last()))
        }
    }
}

/// The apps carrying an explicit category equal to `cat`, in order.
pub open spec fn apps_with_exact_category(apps: Seq<SystemApp>, cat: Seq<char>) -> Seq<SystemApp>
    decreases apps.len(),
{
    if apps.len() == 0 {
        Seq::empty()
    } else {
        let rest = apps_with_exact_category(apps.drop_last(), cat);
        if apps.last().category matches Some(c) && c@ == cat {
            rest.push(apps.last())
        } else {
            rest
        }
    }
}

/// The apps matching a lower-cased search text, in order.
pub open spec fn apps_matching(apps: Seq<SystemApp>, query_lower: Seq<char>) -> Seq<SystemApp>
    decreases apps.len(),
{
    if apps.len() == 0 {
        Seq::empty()
    } else {
        let rest = apps_matching(apps.drop_last(), query_lower);
        if app_matches_query(apps.last(), query_lower) {
            rest.push(apps.last())
        } else {
            rest
        }
    }
}

/// Copy the system and user apps of a discovery result into one list,
/// system apps first.
fn all_apps_of(discovery: &AppDiscoveryResult) -> (all: Vec<SystemApp>)
    ensures
        all@ == discovery.system_apps@ + discovery.user_apps@,
{
    let mut all: Vec<SystemApp> = Vec::new();
    let mut i: usize = 0;
    while i < discovery.system_apps.len()
        invariant
            i <= discovery.system_apps@.len(),
            all@ == discovery.system_apps@.take(i as int),
        decreases discovery.system_apps@.len() - i,
    {
        all.push(clone_app(&discovery.system_apps[i]));
        proof {
            assert(all@ =~= discovery.system_apps@.take(i + 1));
        }
        i = i + 1;
    }
    proof {
        assert(discovery.system_apps@.take(discovery.system_apps@.len() as int) =~= discovery.system_apps@);
    }
    let mut k: usize = 0;
    while k < discovery.user_apps.len()
        invariant
            k <= discovery.user_apps@.len(),
            all@ == discovery.system_apps@ + discovery.user_apps@.take(k as int),
        decreases discovery.user_apps@.len() - k,
    {
        all.push(clone_app(&discovery.user_apps[k]));
        proof {
            assert(all@ =~= discovery.system_apps@ + discovery.user_apps@.take(k + 1));
        }
        k = k + 1;
    }
    proof {
        assert(discovery.user_apps@.take(discovery.user_apps@.len() as int) =~= discovery.user_apps@);
        assert(all@ =~= discovery.system_apps@ + discovery.user_apps@);
    }
    all
}

impl AppDiscovery {
    /// Search a discovery result for apps whose name, display name, or
    /// description contains the query text, case-insensitively. The scan
    /// itself happened before this call, so no scan time is accrued.
    pub fn search_apps(query: &str, discovery: &AppDiscoveryResult) -> (r: AppSearchResult)
        ensures
            r.query@ == query@,
            r.results@ == apps_matching(
                discovery.system_apps@ + discovery.user_apps@,
                lower_of(query@),
            ),
            r.total_found == r.results@.len(),
            r.search_time_ms == 0,
    {
        let all = all_apps_of(discovery);
        let ghost apps = discovery.system_apps@ + discovery.user_apps@;
        let query_lower = to_lowercase(query);
        let mut results: Vec<SystemApp> = Vec::new();
        let mut i: usize = 0;
        proof {
            assert(apps_matching(apps.take(0), lower_of(query@)) =~= Seq::<SystemApp>::empty());
        }
        while i < all.len()
            invariant
                all@ == apps,
                query_lower@ == lower_of(query@),
                i <= apps.len(),
                results@ == apps_matching(apps.take(i as int), lower_of(query@)),
            decreases apps.len() - i,
        {
            proof {
                assert(apps.take(i + 1).drop_last() =~= apps.take(i as int));
                assert(apps.take(i + 1).last() == apps[i as int]);
            }
            let a = &all[i];
            let name_l = to_lowercase(a.name.as_str());
            let mut hit = contains_sub(name_l.as_str(), query_lower.as_str());
            if !hit {
                match &a.display_name {
                    Some(d) => {
                        let dl = to_lowercase(d.as_str());
                        hit = contains_sub(dl.as_str(), query_lower.as_str());
                    },
                    None => {},
                }
            }
            if !hit {
                match &a.description {
                    Some(d) => {
                        let dl = to_lowercase(d.as_str());
                        hit = contains_sub(dl.as_str(), query_lower.as_str());
                    },
                    None => {},
                }
            }
            if hit {
                results.push(clone_app(a));
                proof {
                    assert(results@ =~= apps_matching(apps.take(i as int), lower_of(query@)).push(apps[i as int]));
                }
            }
            i = i + 1;
        }
        proof {
            assert(apps.take(apps.len() as int) =~= apps);
        }
        let total_found = results.len();
        AppSearchResult {
            query: String::from_str(query),
            results,
            total_found,
            search_time_ms: 0,
        }
    }

    /// Collect the apps of a discovery result that carry exactly the
    /// given explicit category.
    pub fn get_apps_by_category(category: &str, discovery: &AppDiscoveryResult) -> (r: AppCategory)
        ensures
            r.name@ == category@,
            r.apps@ == apps_with_exact_category(
                discovery.system_apps@ + discovery.user_apps@,
                category@,
            ),
            r.count == r.apps@.len(),
    {
        let all = all_apps_of(discovery);
        let ghost apps = discovery.system_apps@ + discovery.user_apps@;
        let mut found: Vec<SystemApp> = Vec::new();
        let mut i: usize = 0;
        proof {
            assert(apps_with_exact_category(apps.take(0), category@) =~= Seq::<SystemApp>::empty());
        }
        while i < all.len()
            invariant
                all@ == apps,
                i <= apps.len(),
                found@ == apps_with_exact_category(apps.take(i as int), category@),
            decreases apps.len() - i,
        {
            proof {
                assert(apps.take(i + 1).drop_last() =~= apps.take(i as int));
                assert(apps.take(i + 1).last() == apps[i as int]);
            }
            let a = &all[i];
            let keep = match &a.category {
                Some(c) => str_eq(c.as_str(), category),
                None => false,
            };
            if keep {
                found.push(clone_app(a));
                proof {
                    assert(found@ =~= apps_with_exact_category(apps.take(i as int), category@).push(apps[i as int]));
                }
            }
            i = i + 1;
        }
        proof {
            assert(apps.take(apps.len() as int) =~= apps);
        }
        let count = found.len();
        AppCategory {
            name: String::from_str(category),
            count,
            apps: found,
        }
    }
}

/// The state of a registry-output scan: the apps filed so far and the
/// entry currently being assembled.
pub struct RegState {
    pub sys: Seq<AppView>,
    pub usr: Seq<AppView>,
    pub cur: Option<AppView>,
}

/// A freshly opened registry entry, named after its key.
pub open spec fn fresh_view(name: Seq<char>) -> AppView {
    AppView {
        name: name,
        display_name: None,
        executable_path: None,
        icon_path: None,
        version: None,
        description: None,
        category: None,
        is_system_app: false,
        is_running: false,
        install_date: None,
        publisher: None,
        size: None,
    }
}

/// File the entry being assembled, if it has a name and a display name;
/// an incomplete entry is dropped.
pub open spec fn reg_flush(st: RegState) -> RegState {
    match st.cur {
        Some(a) => if a.name.len() > 0 && a.display_name is Some {
            if view_is_system(a) {
                RegState { sys: st.sys.push(AppView { is_system_app: true, ..a }), cur: None, ..st }
            } else {
                RegState { usr: st.usr.push(AppView { is_system_app: false, ..a }), cur: None, ..st }
            }
        } else {
            RegState { cur: None, ..st }
        },
        None => st,
    }
}

/// The value of a registry line after its type marker: the second field
/// of a split on the marker, trimmed and unquoted.
pub open spec fn reg_value_after(line: Seq<char>, sep: Seq<char>) -> Option<Seq<char>> {
    let fs = split_by(line, sep);
    if fs.len() >= 2 {
        Some(trim_char_of(trim_of(fs[1]), '"'))
    } else {
        None
    }
}

/// Apply one registry value line to the entry being assembled: display
/// name, version, publisher, install location, or the uninstall string
/// as a fallback path, earlier kinds taking precedence.
pub open spec fn reg_set(line: Seq<char>, a: AppView) -> AppView {
    if contains_seq(line, "DisplayName"@) {
        if contains_seq(line, "REG_SZ"@) {
            match reg_value_after(line, "REG_SZ"@) {
                Some(v) => if v.len() > 0 {
                    AppView { display_name: Some(v), ..a }
                } else {
                    a
                },
                None => a,
            }
        } else if contains_seq(line, "REG_EXPAND_SZ"@) {
            match reg_value_after(line, "REG_EXPAND_SZ"@) {
                Some(v) => if v.len() > 0 {
                    AppView { display_name: Some(v), ..a }
                } else {
                    a
                },
                None => a,
            }
        } else {
            a
        }
    } else if contains_seq(line, "DisplayVersion"@) {
        if contains_seq(line, "REG_SZ"@) {
            match reg_value_after(line, "REG_SZ"@) {
                Some(v) => if v.len() > 0 {
                    AppView { version: Some(v), ..a }
                } else {
                    a
                },
                None => a,
            }
        } else {
            a
        }
    } else if contains_seq(line, "Publisher"@) {
        if contains_seq(line, "REG_SZ"@) {
            match reg_value_after(line, "REG_SZ"@) {
                Some(v) => if v.len() > 0 {
                    AppView { publisher: Some(v), ..a }
                } else {
                    a
                },
                None => a,
            }
        } else {
            a
        }
    } else if contains_seq(line, "InstallLocation"@) {
        if contains_seq(line, "REG_SZ"@) {
            match reg_value_after(line, "REG_SZ"@) {
                Some(v) => if v.len() > 0 {
                    AppView { executable_path: Some(v), ..a }
                } else {
                    a
                },
                None => a,
            }
        } else if contains_seq(line, "REG_EXPAND_SZ"@) {
            match reg_value_after(line, "REG_EXPAND_SZ"@) {
                Some(v) => if v.len() > 0 {
                    AppView { executable_path: Some(v), ..a }
                } else {
                    a
                },
                None => a,
            }
        } else {
            a
        }
    } else if contains_seq(line, "UninstallString"@) {
        if contains_seq(line, "REG_SZ"@) {
            match reg_value_after(line, "REG_SZ"@) {
                Some(v) => if v.len() > 0 && a.executable_path is None {
                    AppView { executable_path: Some(v), ..a }
                } else {
                    a
                },
                None => a,
            }
        } else if contains_seq(line, "REG_EXPAND_SZ"@) {
            match reg_value_after(line, "REG_EXPAND_SZ"@) {
                Some(v) => if v.len() > 0 && a.executable_path is None {
                    AppView { executable_path: Some(v), ..a }
                } else {
                    a
                },
                None => a,
            }
        } else {
            a
        }
    } else {
        a
    }
}

/// Process one raw registry output line: a key line files the previous
/// entry and opens a new one named by the key's last path segment; a
/// value line updates the entry being assembled.
pub open spec fn reg_step(st: RegState, raw: Seq<char>) -> RegState {
    let line = trim_of(raw);
    if line.len() >= 5 && line.take(5) == "HKEY_"@ {
        let st1 = reg_flush(st);
        RegState { cur: Some(fresh_view(split_by(line, "\\"@).last())), ..st1 }
    } else {
        match st.cur {
            Some(a) => RegState { cur: Some(reg_set(line, a)), ..st },
            None => st,
        }
    }
}

/// Scan a whole registry output.
pub open spec fn reg_run(st: RegState, lines: Seq<Seq<char>>) -> RegState
    decreases lines.len(),
{
    if lines.len() == 0 {
        st
    } else {
        reg_run(reg_step(st, lines[0]), lines.drop_first())
    }
}

/// Scanning the lines `a + b` is scanning `a`, then `b`.
proof fn lemma_reg_run_app(st: RegState, a: Seq<Seq<char>>, b: Seq<Seq<char>>)
    ensures
        reg_run(st, a + b) == reg_run(reg_run(st, a), b),
    decreases a.len(),
{
    if a.len() == 0 {
        assert(a + b =~= b);
    } else {
        assert((a + b).drop_first() =~= a.drop_first() + b);
        lemma_reg_run_app(reg_step(st, a[0]), a.drop_first(), b);
    }
}

/// Scanning one more line applies one step.
proof fn lemma_reg_run_snoc(st: RegState, lines: Seq<Seq<char>>, i: int)
    requires
        0 <= i < lines.len(),
    ensures
        reg_run(st, lines.take(i + 1)) == reg_step(reg_run(st, lines.take(i)), lines[i]),
{
    assert(lines.take(i + 1) =~= lines.take(i) + seq![lines[i]]);
    lemma_reg_run_app(st, lines.take(i), seq![lines[i]]);
    let st2 = reg_run(st, lines.take(i));
    assert(reg_run(st2, seq![lines[i]]) == reg_step(st2, lines[i])) by {
        reveal_with_fuel(reg_run, 2);
        assert(seq![lines[i]].drop_first() =~= Seq::<Seq<char>>::empty());
    }
}

/// The view of an optional app being assembled.
pub open spec fn view_opt_app(o: Option<SystemApp>) -> Option<AppView> {
    match o {
        Some(a) => Some(app_view(a)),
        None => None,
    }
}

/// Read one registry value line into the entry being assembled.
#[verifier::rlimit(100)]
fn apply_registry_value(app: &mut SystemApp, line: &str)
    ensures
        app_view(*final(app)) == reg_set(line@, app_view(*old(app))),
{
    proof {
        reveal_strlit("REG_SZ");
        reveal_strlit("REG_EXPAND_SZ");
    }
    if contains_sub(line, "DisplayName") {
        if contains_sub(line, "REG_SZ") {
            match registry_value_after(line, "REG_SZ") {
                Some(v) => if v.as_str().unicode_len() > 0 {
                    app.display_name = Some(v);
                },
                None => {},
            }
        } else if contains_sub(line, "REG_EXPAND_SZ") {
            match registry_value_after(line, "REG_EXPAND_SZ") {
                Some(v) => if v.as_str().unicode_len() > 0 {
                    app.display_name = Some(v);
                },
                None => {},
            }
        }
    } else if contains_sub(line, "DisplayVersion") {
        if contains_sub(line, "REG_SZ") {
            match registry_value_after(line, "REG_SZ") {
                Some(v) => if v.as_str().unicode_len() > 0 {
                    app.version = Some(v);
                },
                None => {},
            }
        }
    } else if contains_sub(line, "Publisher") {
        if contains_sub(line, "REG_SZ") {
            match registry_value_after(line, "REG_SZ") {
                Some(v) => if v.as_str().unicode_len() > 0 {
                    app.publisher = Some(v);
                },
                None => {},
            }
        }
    } else if contains_sub(line, "InstallLocation") {
        if contains_sub(line, "REG_SZ") {
            match registry_value_after(line, "REG_SZ") {
                Some(v) => if v.as_str().unicode_len() > 0 {
                    app.executable_path = Some(v);
                },
                None => {},
            }
        } else if contains_sub(line, "REG_EXPAND_SZ") {
            match registry_value_after(line, "REG_EXPAND_SZ") {
                Some(v) => if v.as_str().unicode_len() > 0 {
                    app.executable_path = Some(v);
                },
                None => {},
            }
        }
    } else if contains_sub(line, "UninstallString") {
        if contains_sub(line, "REG_SZ") {
            match registry_value_after(line, "REG_SZ") {
                Some(v) => if v.as_str().unicode_len() > 0 && app.executable_path.is_none() {
                    app.executable_path = Some(v);
                },
                None => {},
            }
        } else if contains_sub(line, "REG_EXPAND_SZ") {
            match registry_value_after(line, "REG_EXPAND_SZ") {
                Some(v) => if v.as_str().unicode_len() > 0 && app.executable_path.is_none() {
                    app.executable_path = Some(v);
                },
                None => {},
            }
        }
    }
}

/// The trimmed, unquoted value after a registry type marker.
fn registry_value_after(line: &str, sep: &str) -> (r: Option<String>)
    requires
        sep@.len() > 0,
    ensures
        crate::chunker::view_opt(r) == reg_value_after(line@, sep@),
{
    let fields = split_str(line, sep);
    if fields.len() >= 2 {
        let trimmed = trim(fields[1].as_str());
        Some(trim_char(trimmed.as_str(), '"'))
    } else {
        None
    }
}

impl AppDiscovery {
    /// Read a registry listing: each `HKEY_` line files the entry built
    /// so far (when complete) and opens a new one; value lines fill in
    /// its display name, version, publisher, and executable path.
    pub fn parse_windows_registry_output(&mut self, output: &str)
        ensures
            ({
                let end = reg_flush(reg_run(
                    RegState {
                        sys: app_views(old(self).system_apps@),
                        usr: app_views(old(self).user_apps@),
                        cur: None,
                    },
                    split_by(output@, "\n"@),
                ));
                app_views(final(self).system_apps@) == end.sys
                    && app_views(final(self).user_apps@) == end.usr
            }),
            final(self).running_apps@ == old(self).running_apps@,
            final(self).categories@ == old(self).categories@,
    {
        proof {
            reveal_strlit("\n");
        }
        let ghost init = RegState {
            sys: app_views(self.system_apps@),
            usr: app_views(self.user_apps@),
            cur: None,
        };
        let fields = split_str(output, "\n");
        let ghost lines = views_of(fields@);
        let mut current: Option<SystemApp> = None;
        let mut i: usize = 0;
        proof {
            assert(lines.take(0) =~= Seq::<Seq<char>>::empty());
        }
        while i < fields.len()
            invariant
                lines == views_of(fields@),
                i <= fields@.len(),
                reg_run(init, lines.take(i as int)) == (RegState {
                    sys: app_views(self.system_apps@),
                    usr: app_views(self.user_apps@),
                    cur: view_opt_app(current),
                }),
                self.running_apps@ == old(self).running_apps@,
                self.categories@ == old(self).categories@,
            decreases fields@.len() - i,
        {
            proof {
                lemma_reg_run_snoc(init, lines, i as int);
                reveal_strlit("HKEY_");
            }
            let ghost st = reg_run(init, lines.take(i as int));
            let t = trim(fields[i].as_str());
            if starts_with(t.as_str(), "HKEY_") {
                let taken = current;
                current = None;
                match taken {
                    Some(app) => {
                        if app.name.as_str().unicode_len() > 0 && app.display_name.is_some() {
                            self.add_app(app);
                        }
                    },
                    None => {},
                }
                proof {
                    let st1 = reg_flush(st);
                    assert(st1.sys == app_views(self.system_apps@) && st1.usr == app_views(self.user_apps@));
                }
                proof {
                    reveal_strlit("\\");
                }
                let parts = split_str(t.as_str(), "\\");
                proof {
                    crate::text::lemma_split_by_nonempty(t@, "\\"@);
                }
                let nm = parts[parts.len() - 1].clone();
                current = Some(SystemApp {
                    name: nm,
                    display_name: None,
                    executable_path: None,
                    icon_path: None,
                    version: None,
                    description: None,
                    category: None,
                    is_system_app: false,
                    is_running: false,
                    install_date: None,
                    publisher: None,
                    size: None,
                });
            } else {
                match &mut current {
                    Some(app) => apply_registry_value(app, t.as_str()),
                    None => {},
                }
            }
            i = i + 1;
        }
        proof {
            assert(lines.take(lines.len() as int) =~= lines);
        }
        let taken = current;
        match taken {
            Some(app) => {
                if app.name.as_str().unicode_len() > 0 && app.display_name.is_some() {
                    self.add_app(app);
                }
            },
            None => {},
        }
    }

    /// Group every discovered app (system and user) under its category.
    pub fn categorize_apps(&mut self)
        ensures
            ({
                let all = old(self).system_apps@ + old(self).user_apps@;
                &&& views_of(final(self).categories@.map_values(|c: AppCategory| c.name))
                    == category_names(all)
                &&& forall|j: int| 0 <= j < final(self).categories@.len() ==> {
                    let c = #[trigger] final(self).categories@[j];
                    c.apps@ == apps_with_category(all, c.name@) && c.count == c.apps@.len()
                }
            }),
            final(self).system_apps@ == old(self).system_apps@,
            final(self).user_apps@ == old(self).user_apps@,
            final(self).running_apps@ == old(self).running_apps@,
    {
        let all = all_apps_of_lists(&self.system_apps, &self.user_apps);
        let ghost apps = self.system_apps@ + self.user_apps@;
        let mut names: Vec<String> = Vec::new();
        let mut i: usize = 0;
        proof {
            assert(category_names(apps.take(0)) =~= Seq::<Seq<char>>::empty());
        }
        while i < all.len()
            invariant
                all@ == apps,
                i <= apps.len(),
                views_of(names@) == category_names(apps.take(i as int)),
            decreases apps.len() - i,
        {
            proof {
                assert(apps.take(i + 1).drop_last() =~= apps.take(i as int));
                assert(apps.take(i + 1).last() == apps[i as int]);
            }
            let cat = self.determine_app_category(&all[i]);
            if !crate::analyzer::vec_contains_str(&names, cat.as_str()) {
                names.push(cat);
                proof {
                    assert(views_of(names@)
                        =~= category_names(apps.take(i as int)).push(app_category_spec(apps[i as int])));
                }
            }
            i = i + 1;
        }
        proof {
            assert(apps.take(apps.len() as int) =~= apps);
        }
        let mut categories: Vec<AppCategory> = Vec::new();
        let mut j: usize = 0;
        while j < names.len()
            invariant
                all@ == apps,
                j <= names@.len(),
                categories@.len() == j,
                forall|k: int| 0 <= k < j ==> (#[trigger] categories@[k]).name == names@[k],
                forall|k: int| 0 <= k < j ==> {
                    let c = #[trigger] categories@[k];
                    c.apps@ == apps_with_category(apps, c.name@) && c.count == c.apps@.len()
                },
            decreases names@.len() - j,
        {
            let mut members: Vec<SystemApp> = Vec::new();
            let mut k: usize = 0;
            proof {
                assert(apps_with_category(apps.take(0), names@[j as int]@) =~= Seq::<SystemApp>::empty());
            }
            while k < all.len()
                invariant
                    all@ == apps,
                    j < names@.len(),
                    k <= apps.len(),
                    members@ == apps_with_category(apps.take(k as int), names@[j as int]@),
                decreases apps.len() - k,
            {
                proof {
                    assert(apps.take(k + 1).drop_last() =~= apps.take(k as int));
                    assert(apps.take(k + 1).last() == apps[k as int]);
                }
                let cat = self.determine_app_category(&all[k]);
                if str_eq(cat.as_str(), names[j].as_str()) {
                    members.push(clone_app(&all[k]));
                    proof {
                        assert(members@ =~= apps_with_category(apps.take(k as int), names@[j as int]@)
                            .push(apps[k as int]));
                    }
                }
                k = k + 1;
            }
            proof {
                assert(apps.take(apps.len() as int) =~= apps);
            }
            let count = members.len();
            categories.push(AppCategory {
                name: names[j].clone(),
                count,
                apps: members,
            });
            j = j + 1;
        }
        self.categories = categories;
        proof {
            assert(self.categories@.map_values(|c: AppCategory| c.name) =~= names@);
            assert(views_of(self.categories@.map_values(|c: AppCategory| c.name)) =~= views_of(names@));
        }
    }
}

/// The app lists after scanning a series of registry outputs in order,
/// starting from the given lists.
pub open spec fn reg_scan_all(sys: Seq<AppView>, usr: Seq<AppView>, outputs: Seq<Seq<char>>) -> RegState
    decreases outputs.len(),
{
    if outputs.len() == 0 {
        RegState { sys: sys, usr: usr, cur: None }
    } else {
        let prev = reg_scan_all(sys, usr, outputs.drop_last());
        reg_flush(reg_run(
            RegState { sys: prev.sys, usr: prev.usr, cur: None },
            split_by(outputs.last(), "\n"@),
        ))
    }
}

impl AppDiscovery {
    /// Run a full discovery over captured command outputs: file the apps
    /// of each registry listing, read the running processes out of the
    /// task list, and categorize everything found. The scan time and any
    /// collection errors are recorded as given.
    pub fn discover_all_apps(
        registry_outputs: &Vec<String>,
        tasklist_csv: &str,
        scan_time_ms: u64,
        errors: Vec<String>,
    ) -> (r: AppDiscoveryResult)
        ensures
            ({
                let scanned = reg_scan_all(Seq::empty(), Seq::empty(), views_of(registry_outputs@));
                app_views(r.system_apps@) == scanned.sys && app_views(r.user_apps@) == scanned.usr
            }),
            app_views(r.running_apps@) == running_views_of(output_lines(tasklist_csv@)),
            views_of(r.categories@) == category_names(r.system_apps@ + r.user_apps@),
            r.total_apps == crate::analyzer::sat_add_usize(r.system_apps@.len() as usize, r.user_apps@.len() as usize),
            r.scan_time_ms == scan_time_ms,
            r.errors == errors,
    {
        let ghost outs = views_of(registry_outputs@);
        let mut discovery = AppDiscovery::new();
        let mut i: usize = 0;
        proof {
            assert(outs.take(0) =~= Seq::<Seq<char>>::empty());
            assert(app_views(discovery.system_apps@) =~= Seq::<AppView>::empty());
            assert(app_views(discovery.user_apps@) =~= Seq::<AppView>::empty());
        }
        while i < registry_outputs.len()
            invariant
                outs == views_of(registry_outputs@),
                i <= outs.len(),
                app_views(discovery.system_apps@) == reg_scan_all(Seq::empty(), Seq::empty(), outs.take(i as int)).sys,
                app_views(discovery.user_apps@) == reg_scan_all(Seq::empty(), Seq::empty(), outs.take(i as int)).usr,
                discovery.running_apps@.len() == 0,
                discovery.categories@.len() == 0,
            decreases outs.len() - i,
        {
            proof {
                assert(outs.take(i + 1).drop_last() =~= outs.take(i as int));
                assert(outs.take(i + 1).last() == outs[i as int]);
            }
            discovery.parse_windows_registry_output(registry_outputs[i].as_str());
            i = i + 1;
        }
        proof {
            assert(outs.take(outs.len() as int) =~= outs);
        }
        discovery.get_running_processes(tasklist_csv);
        proof {
            assert(app_views(discovery.running_apps@)
                =~= running_views_of(output_lines(tasklist_csv@)));
        }
        discovery.categorize_apps();
        let mut category_list: Vec<String> = Vec::new();
        let mut j: usize = 0;
        while j < discovery.categories.len()
            invariant
                j <= discovery.categories@.len(),
                category_list@.len() == j,
                forall|k: int| 0 <= k < j ==> (#[trigger] category_list@[k]) == discovery.categories@[k].name,
            decreases discovery.categories@.len() - j,
        {
            category_list.push(discovery.categories[j].name.clone());
            j = j + 1;
        }
        proof {
            assert(category_list@ =~= discovery.categories@.map_values(|c: AppCategory| c.name));
            assert(views_of(category_list@)
                =~= views_of(discovery.categories@.map_values(|c: AppCategory| c.name)));
        }
        let total_apps = crate::analyzer::sat_add(discovery.system_apps.len(), discovery.user_apps.len());
        AppDiscoveryResult {
            total_apps,
            system_apps: discovery.system_apps,
            user_apps: discovery.user_apps,
            running_apps: discovery.running_apps,
            categories: category_list,
            scan_time_ms,
            errors,
        }
    }
}

/// Copy two app lists into one, the first list first.
fn all_apps_of_lists(a: &Vec<SystemApp>, b: &Vec<SystemApp>) -> (all: Vec<SystemApp>)
    ensures
        all@ == a@ + b@,
{
    let mut all: Vec<SystemApp> = Vec::new();
    let mut i: usize = 0;
    while i < a.len()
        invariant
            i <= a@.len(),
            all@ == a@.take(i as int),
        decreases a@.len() - i,
    {
        all.push(clone_app(&a[i]));
        proof {
            assert(all@ =~= a@.take(i + 1));
        }
        i = i + 1;
    }
    proof {
        assert(a@.take(a@.len() as int) =~= a@);
    }
    let mut k: usize = 0;
    while k < b.len()
        invariant
            k <= b@.len(),
            all@ == a@ + b@.take(k as int),
        decreases b@.len() - k,
    {
        all.push(clone_app(&b[k]));
        proof {
            assert(all@ =~= a@ + b@.take(k + 1));
        }
        k = k + 1;
    }
    proof {
        assert(b@.take(b@.len() as int) =~= b@);
        assert(all@ =~= a@ + b@);
    }
    all
}

} // verus!
