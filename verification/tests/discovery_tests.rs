use activity_rag::discovery::{AppDiscovery, SystemApp};

fn plain_app(name: &str) -> SystemApp {
    SystemApp {
        name: name.to_string(),
        display_name: None,
        executable_path: None,
        icon_path: None,
        version: None,
        description: None,
        category: None,
        is_system_app: false,
        is_running: false,
        install_date: None,
        publisher: None,
        size: None,
    }
}

const REGISTRY_OUTPUT: &str = "\
HKEY_LOCAL_MACHINE\\SOFTWARE\\Microsoft\\Windows\\CurrentVersion\\Uninstall\\MyEditor\n\
    DisplayName    REG_SZ    My Editor\n\
    DisplayVersion    REG_SZ    1.2.3\n\
    Publisher    REG_SZ    Example Corp\n\
    InstallLocation    REG_SZ    C:\\Tools\\MyEditor\n\
\n\
HKEY_LOCAL_MACHINE\\SOFTWARE\\Microsoft\\Windows\\CurrentVersion\\Uninstall\\WindowsThing\n\
    DisplayName    REG_SZ    Windows Thing\n\
\n\
HKEY_LOCAL_MACHINE\\SOFTWARE\\Microsoft\\Windows\\CurrentVersion\\Uninstall\\Nameless\n\
    DisplayVersion    REG_SZ    9.9\n";

#[test]
fn registry_parsing_files_complete_entries() {
    let mut discovery = AppDiscovery::new();
    discovery.parse_windows_registry_output(REGISTRY_OUTPUT);
    // "MyEditor" has no system marker: a user app.
    assert_eq!(discovery.user_apps.len(), 1);
    let editor = &discovery.user_apps[0];
    assert_eq!(editor.name, "MyEditor");
    assert_eq!(editor.display_name.as_deref(), Some("My Editor"));
    assert_eq!(editor.version.as_deref(), Some("1.2.3"));
    assert_eq!(editor.publisher.as_deref(), Some("Example Corp"));
    assert_eq!(editor.executable_path.as_deref(), Some("C:\\Tools\\MyEditor"));
    assert!(!editor.is_system_app);
    // "WindowsThing" carries a system word in its name: a system app.
    assert_eq!(discovery.system_apps.len(), 1);
    assert_eq!(discovery.system_apps[0].name, "WindowsThing");
    assert!(discovery.system_apps[0].is_system_app);
    // "Nameless" has no display name, so it is dropped.
}

#[test]
fn uninstall_string_is_a_fallback_path_only() {
    let output = "\
HKEY_LOCAL_MACHINE\\X\\AppOne\n\
    DisplayName    REG_SZ    App One\n\
    InstallLocation    REG_SZ    C:\\One\n\
    UninstallString    REG_SZ    C:\\One\\remove.exe\n\
\n\
HKEY_LOCAL_MACHINE\\X\\AppTwo\n\
    DisplayName    REG_SZ    App Two\n\
    UninstallString    REG_SZ    C:\\Two\\remove.exe\n";
    let mut discovery = AppDiscovery::new();
    discovery.parse_windows_registry_output(output);
    assert_eq!(discovery.user_apps.len(), 2);
    assert_eq!(discovery.user_apps[0].executable_path.as_deref(), Some("C:\\One"));
    assert_eq!(discovery.user_apps[1].executable_path.as_deref(), Some("C:\\Two\\remove.exe"));
}

#[test]
fn running_processes_come_from_the_task_list() {
    let csv = "\"Image Name\",\"PID\"\r\n\"screenpipe.exe\",\"123\"\r\n\"editor.exe\",\"456\"\r\n";
    let mut discovery = AppDiscovery::new();
    discovery.get_running_processes(csv);
    let names: Vec<&str> = discovery.running_apps.iter().map(|a| a.name.as_str()).collect();
    assert_eq!(names, vec!["screenpipe.exe", "editor.exe"]);
    assert!(discovery.running_apps[0].is_running);
    assert_eq!(discovery.running_apps[0].category.as_deref(), Some("Running Process"));
}

#[test]
fn system_app_markers() {
    let discovery = AppDiscovery::new();
    let mut a = plain_app("quiet tool");
    assert!(!discovery.is_system_app(&a));
    a.publisher = Some("Microsoft Corporation".to_string());
    assert!(discovery.is_system_app(&a));
    let mut b = plain_app("notepad");
    b.executable_path = Some("C:\\Windows\\system32\\notepad.exe".to_string());
    assert!(discovery.is_system_app(&b));
    let c = plain_app("Security Update Helper");
    assert!(discovery.is_system_app(&c));
}

#[test]
fn category_precedence() {
    let discovery = AppDiscovery::new();
    let mut a = plain_app("x");
    a.is_running = true;
    assert_eq!(discovery.determine_app_category(&a), "Running Processes");
    let mut b = plain_app("x");
    b.category = Some("Custom".to_string());
    assert_eq!(discovery.determine_app_category(&b), "Custom");
    let mut c = plain_app("x");
    c.executable_path = Some("C:\\Apps\\chrome\\chrome.exe".to_string());
    assert_eq!(discovery.determine_app_category(&c), "Web Browsers");
    let mut d = plain_app("x");
    d.executable_path = Some("C:\\Apps\\visual studio\\ide.exe".to_string());
    assert_eq!(discovery.determine_app_category(&d), "Development Tools");
    let e = plain_app("x");
    assert_eq!(discovery.determine_app_category(&e), "User Applications");
}

#[test]
fn app_exists_checks_both_lists_case_insensitively() {
    let mut discovery = AppDiscovery::new();
    let mut a = plain_app("MyEditor");
    a.display_name = Some("My Editor".to_string());
    discovery.add_app(a);
    assert!(discovery.app_exists("myeditor"));
    assert!(discovery.app_exists("MY EDITOR"));
    assert!(!discovery.app_exists("other"));
}

#[test]
fn discovery_end_to_end() {
    let registry = vec![REGISTRY_OUTPUT.to_string()];
    let csv = "\"Image Name\",\"PID\"\n\"editor.exe\",\"456\"\n";
    let result = AppDiscovery::discover_all_apps(&registry, csv, 12, vec![]);
    assert_eq!(result.total_apps, 2);
    assert_eq!(result.system_apps.len(), 1);
    assert_eq!(result.user_apps.len(), 1);
    assert_eq!(result.running_apps.len(), 1);
    assert_eq!(result.scan_time_ms, 12);
    assert!(result.errors.is_empty());
    // Both filed apps fall under their default categories.
    assert!(result.categories.contains(&"User Applications".to_string()));
    assert!(result.categories.contains(&"System Applications".to_string()));

    let search = AppDiscovery::search_apps("editor", &result);
    assert_eq!(search.total_found, 1);
    assert_eq!(search.results[0].name, "MyEditor");
    assert_eq!(search.query, "editor");

    let none = AppDiscovery::search_apps("spreadsheet", &result);
    assert_eq!(none.total_found, 0);
}
