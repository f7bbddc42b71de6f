use hostkit::apps::{Applications, UninstallRecord};
use hostkit::registry::RegistryError;

fn record(name: Option<&str>, raw: Option<&str>) -> UninstallRecord {
    UninstallRecord {
        display_name: name.map(|s| s.to_string()),
        uninstall_raw: raw.map(|s| s.to_string()),
        uninstall_string: raw.map(|s| s.to_string()),
        install_location: None,
        install_source: None,
        display_icon: None,
    }
}

#[test]
fn seven_zip_product_id() {
    let apps = Applications::new();
    let records = vec![record(
        Some("7-Zip 19.00"),
        Some("MsiExec.exe /I{23170F69-40C1-2702-1900-000001000000}"),
    )];
    let r = apps.find_msi_product_id(&records, "zip").unwrap();
    assert_eq!(
        r,
        vec![("7-Zip 19.00".to_string(), "{23170F69-40C1-2702-1900-000001000000}".to_string())]
    );
}

#[test]
fn product_id_removal_flag_and_case() {
    let apps = Applications::new();
    let records = vec![
        record(Some("Tool"), Some("MsiExec.exe /X{AAA}")),
        record(Some("Other"), Some("\"C:\\other\\uninst.exe\"")),
        record(None, Some("MsiExec.exe /X{BBB}")),
        record(Some("TOOL kit"), None),
    ];
    let r = apps.find_msi_product_id(&records, "tOoL").unwrap();
    assert_eq!(r, vec![("Tool".to_string(), "{AAA}".to_string())]);
}

#[test]
fn product_id_later_record_overwrites() {
    let apps = Applications::new();
    let records = vec![
        record(Some("Tool"), Some("MsiExec.exe /X{OLD}")),
        record(Some("Zed"), Some("MsiExec.exe /X{ZED}")),
        record(Some("Tool"), Some("MsiExec.exe /I{NEW}")),
    ];
    let r = apps.find_msi_product_id(&records, "").unwrap();
    assert_eq!(
        r,
        vec![
            ("Tool".to_string(), "{NEW}".to_string()),
            ("Zed".to_string(), "{ZED}".to_string())
        ]
    );
}

#[test]
fn product_id_quotes_become_single() {
    let apps = Applications::new();
    let records = vec![record(Some("Q"), Some("MsiExec.exe /X{Q} \\\"a\\\" \"b\""))];
    let r = apps.find_msi_product_id(&records, "q").unwrap();
    assert_eq!(r[0].1, "{Q} 'a' 'b'");
}

#[test]
fn notepad_exe_command() {
    let apps = Applications::new();
    let records = vec![record(
        Some("Notepad++"),
        Some("\"C:\\Program Files\\Notepad++\\uninstall.exe\""),
    )];
    let r = apps.find_exe_uninstall_string(&records, "notepad").unwrap();
    assert_eq!(
        r,
        vec![(
            "Notepad++".to_string(),
            vec!["C:\\Program Files\\Notepad++\\uninstall.exe".to_string()]
        )]
    );
}

#[test]
fn notepad_escaped_quotes() {
    let apps = Applications::new();
    let records = vec![record(
        Some("Notepad++"),
        Some("\\\"C:\\Program Files\\Notepad++\\uninstall.exe\\\""),
    )];
    let r = apps.find_exe_uninstall_string(&records, "NOTEPAD").unwrap();
    assert_eq!(r[0].1, vec!["C:\\Program Files\\Notepad++\\uninstall.exe".to_string()]);
}

#[test]
fn exe_command_with_parameters() {
    let apps = Applications::new();
    let records = vec![
        record(Some("Game"), Some("\"C:\\game\\unins000.exe\" /SILENT")),
        record(Some("Game msi"), Some("MsiExec.exe /X{G}")),
        record(Some("Game empty"), Some("")),
    ];
    let r = apps.find_exe_uninstall_string(&records, "game").unwrap();
    assert_eq!(
        r,
        vec![(
            "Game".to_string(),
            vec!["C:\\game\\unins000.exe".to_string(), "/SILENT".to_string()]
        )]
    );
}

#[test]
fn nothing_matches_is_not_found() {
    let apps = Applications::new();
    let records = vec![
        record(Some("7-Zip 19.00"), Some("MsiExec.exe /I{23170F69}")),
        record(Some("Notepad++"), Some("\"C:\\n\\uninstall.exe\"")),
    ];
    assert_eq!(apps.find_msi_product_id(&records, "absent"), Err(RegistryError::NotFound));
    assert_eq!(apps.find_exe_uninstall_string(&records, "absent"), Err(RegistryError::NotFound));
    assert_eq!(apps.find_app_details(&records, "absent"), Err(RegistryError::NotFound));
    let none: Vec<UninstallRecord> = Vec::new();
    assert_eq!(apps.find_msi_product_id(&none, ""), Err(RegistryError::NotFound));
}

#[test]
fn app_details_first_match_only() {
    let apps = Applications::new();
    let mut first = record(Some("Driver A"), None);
    first.install_location = Some("C:\\a".to_string());
    first.display_icon = Some("a.ico".to_string());
    let mut second = record(Some("driver B"), Some("b.exe"));
    second.install_source = Some("D:\\".to_string());
    let records = vec![record(Some("Other"), Some("x")), first, second];
    let r = apps.find_app_details(&records, "DRIVER").unwrap();
    assert_eq!(
        r,
        vec![
            ("InstallLocation".to_string(), "C:\\a".to_string()),
            ("DisplayIcon".to_string(), "a.ico".to_string()),
            ("DisplayName".to_string(), "Driver A".to_string())
        ]
    );
}

#[test]
fn app_details_all_fields() {
    let apps = Applications::new();
    let rec = UninstallRecord {
        display_name: Some("Samsung USB Driver for Mobile Phones".to_string()),
        uninstall_raw: Some("MsiExec.exe /X{S}".to_string()),
        uninstall_string: Some("MsiExec.exe /X{S}".to_string()),
        install_location: Some("C:\\s".to_string()),
        install_source: Some("D:\\s".to_string()),
        display_icon: Some("s.ico".to_string()),
    };
    let r = apps.find_app_details(&vec![rec], "Samsung USB Driver for Mobile Phones").unwrap();
    let keys: Vec<&str> = r.iter().map(|e| e.0.as_str()).collect();
    assert_eq!(
        keys,
        vec!["UninstallString", "InstallLocation", "InstallSource", "DisplayIcon", "DisplayName"]
    );
}

#[test]
fn uninstall_roots_are_fixed() {
    let apps = Applications::new();
    assert_eq!(
        apps.uninstall_roots(),
        &vec![
            "SOFTWARE\\Microsoft\\Windows\\CurrentVersion\\Uninstall".to_string(),
            "SOFTWARE\\Wow6432Node\\Microsoft\\Windows\\CurrentVersion\\Uninstall".to_string()
        ]
    );
}

#[test]
fn get_product_id() {
    let apps = Applications::new();
    let records: Vec<UninstallRecord> = Vec::new();
    let product_id = apps.find_msi_product_id(&records, "vs_community");
    match product_id {
        Err(e) => {
            assert_eq!(e, RegistryError::NotFound);
            println!("product_id_in_error");
        }
        Ok(product_ids) => {
            for (key, val) in product_ids {
                println!("{}, {}", key, val);
            }
        }
    }
}

#[test]
fn get_app_details() {
    let apps = Applications::new();
    let records: Vec<UninstallRecord> = Vec::new();
    let app_details = apps.find_app_details(&records, "Samsung USB Driver for Mobile Phones");
    match app_details {
        Err(e) => {
            assert_eq!(e, RegistryError::NotFound);
            println!("product_id_in_error");
        }
        Ok(details) => {
            for (key, val) in details {
                println!("{}, {:#?}", key, val);
            }
        }
    }
}
