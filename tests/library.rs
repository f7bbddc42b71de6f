use hostkit::files::{File, FileError};
use hostkit::folders::{FolderArray, FolderSingle};
use hostkit::game::{Game, GameData, GameError, Inventory, Name, Player, Shop};
use hostkit::registry::{Registry, RootKey};

#[test]
fn mod_home_dir() {}

#[test]
fn file_lines_utf8() {
    let mut f = File::new();
    f.set_file("log.txt");
    let bytes = b"\n  first line \r\n\n middle\nlast one  \n   \n".to_vec();
    assert_eq!(f.first_file_line(&bytes), Ok("first line".to_string()));
    assert_eq!(f.last_file_line(&bytes), Ok("last one".to_string()));
    assert_eq!(f.find_line_by_text(&bytes, "mid"), Ok("middle".to_string()));
    assert_eq!(f.find_line_by_text(&bytes, "absent"), Err(FileError::TextNotFound));
    assert_eq!(f.get_file(), "log.txt");
}

#[test]
fn file_empty_and_invalid() {
    let mut f = File::new();
    assert_eq!(f.last_file_line(&b" \n\t\n".to_vec()), Err(FileError::Empty));
    assert_eq!(f.first_file_line(&Vec::new()), Err(FileError::Empty));
    assert_eq!(f.first_file_line(&vec![0xff, 0xfe, 0x41]), Err(FileError::NotText));
}

#[test]
fn file_lines_utf16le() {
    let mut f = File::new();
    f.is_utf16le();
    let text = "one\ntwo\n";
    let bytes: Vec<u8> = text.encode_utf16().flat_map(|u| u.to_le_bytes()).collect();
    assert_eq!(f.first_file_line(&bytes), Ok("one".to_string()));
    assert_eq!(f.last_file_line(&bytes), Ok("two".to_string()));
}

#[test]
fn folders_hold_paths() {
    let mut one = FolderSingle::new();
    one.set_root_directory("/tmp/x");
    assert_eq!(one.get_root_directory(), "/tmp/x");
    let mut many = FolderArray::new();
    many.set_root_directory(vec!["a".to_string(), "b".to_string()]);
    assert_eq!(many.get_root_directories().len(), 2);
}

#[test]
fn registry_roots() {
    let mut reg = Registry::new();
    assert_eq!(reg.get_root(), RootKey::Handle(0));
    assert_eq!(reg.get_paths(), &vec![String::new()]);
    reg.set_root_hkcr();
    assert_eq!(reg.get_root(), RootKey::ClassesRoot);
    reg.set_root_hkcu().set_hku();
    assert_eq!(reg.get_root(), RootKey::Users);
    reg.set_hkcc();
    assert_eq!(reg.get_root(), RootKey::CurrentConfig);
    reg.set_root(7).set_paths(vec!["p".to_string()]);
    assert_eq!(reg.get_root(), RootKey::Handle(7));
    assert_eq!(reg.get_paths(), &vec!["p".to_string()]);
}

fn player(name: &str) -> Player {
    let mut p = Player::new();
    p.set_name(name);
    p
}

#[test]
fn players_by_name() {
    let mut g = Game::new();
    g.set_name("Quest");
    assert_eq!(g.get_name(), "Quest");
    g.add_player(player(""));
    assert!(g.get_players().is_empty());
    let mut a = player("Ann");
    a.set_stat("hp".to_string(), "10".to_string());
    g.add_player(a);
    g.add_player(player("Bob"));
    let mut a2 = player("Ann");
    a2.set_stat("hp".to_string(), "12".to_string());
    g.add_player(a2);
    let names: Vec<String> = g.get_players().iter_mut().map(|p| p.get_name()).collect();
    assert_eq!(names, vec!["Ann".to_string(), "Bob".to_string()]);
    assert_eq!(g.get_single_player("Ann").get_stats(), vec![("hp".to_string(), "12".to_string())]);
    g.remove_player("Ann");
    assert_eq!(g.get_players().len(), 1);
    assert_eq!(g.get_instance().get_players().len(), 1);
}

#[test]
fn shops_by_name() {
    let mut g = Game::new();
    let mut s = Shop::new();
    s.set_name("Smith");
    s.set_item("sword".to_string(), 3);
    s.set_item("".to_string(), 9);
    g.add_shop(s);
    let mut empty = Shop::new();
    empty.set_item("x".to_string(), 1);
    g.add_shop(empty);
    assert_eq!(g.get_shops().len(), 1);
    assert_eq!(g.get_single_shop("Smith").get_inventory(), vec![("sword".to_string(), 3)]);
    g.remove_shop("Smith");
    assert!(g.get_shops().is_empty());
}

#[test]
fn stats_and_items() {
    let mut p = Player::new();
    p.set_stat("str".to_string(), "5".to_string());
    p.set_stat("dex".to_string(), "4".to_string());
    p.set_stat("str".to_string(), "6".to_string());
    p.set_stat("".to_string(), "0".to_string());
    assert_eq!(
        p.get_stats(),
        vec![("str".to_string(), "6".to_string()), ("dex".to_string(), "4".to_string())]
    );
    p.remove_stat("str".to_string());
    p.remove_stat("none".to_string());
    assert_eq!(p.get_stats(), vec![("dex".to_string(), "4".to_string())]);
    p.set_item("gold".to_string(), -2);
    p.set_item("gold".to_string(), 7);
    assert_eq!(p.get_inventory(), vec![("gold".to_string(), 7)]);
    p.remove_item("gold".to_string());
    assert!(p.get_inventory().is_empty());
    let mut copy = p.get_instance();
    assert_eq!(copy.get_stats(), vec![("dex".to_string(), "4".to_string())]);
    let mut shop = Shop::new();
    shop.set_name("S");
    assert_eq!(shop.get_instance().get_name(), "S");
}

#[test]
fn removal_paths_planned() {
    let mut reg = Registry::new();
    reg.set_paths(vec!["A".to_string(), "B".to_string()]);
    assert_eq!(reg.remove_keys(Vec::new()), Err(hostkit::registry::RegistryError::InvalidInput));
    let planned = reg.remove_keys(vec!["k".to_string(), "j".to_string(), "k".to_string()]).unwrap();
    assert_eq!(
        planned,
        vec!["A\\k".to_string(), "A\\j".to_string(), "B\\k".to_string(), "B\\j".to_string()]
    );
    assert_eq!(
        Registry::removable_keys(&planned, &vec![false, true, false, true]),
        Ok(vec!["A\\j".to_string(), "B\\j".to_string()])
    );
    assert_eq!(
        Registry::removable_keys(&planned, &vec![false; 4]),
        Err(hostkit::registry::RegistryError::InvalidInput)
    );
}

#[test]
fn game_data_by_title() {
    let mut a = Game::new();
    a.set_name("A");
    let mut b = Game::new();
    b.set_name("B");
    let mut data = GameData::from_games("/tmp/games.yaml", vec![a, b]);
    assert_eq!(data.game_list(), vec!["A".to_string(), "B".to_string()]);
    assert_eq!(data.get_path(), "/tmp/games.yaml");
    assert!(matches!(data.get_game("C"), Err(GameError::NotFound)));
    let mut a2 = Game::new();
    a2.set_name("A");
    a2.add_player(player("P"));
    data.add_game(a2);
    assert_eq!(data.game_list(), vec!["A".to_string(), "B".to_string()]);
    assert_eq!(data.get_game("A").unwrap().get_players().len(), 1);
    let mut c = Game::new();
    c.set_name("C");
    data.add_game(c);
    data.remove_game("B");
    data.remove_game("missing");
    assert_eq!(data.game_list(), vec!["A".to_string(), "C".to_string()]);
    assert_eq!(data.get_games().len(), 2);
}

#[test]
fn file_lines_unicode_white_space() {
    let mut f = File::new();
    let bytes = "\u{3000}\u{a0}\n\u{2003}hello there\u{a0}\t\r\n".as_bytes().to_vec();
    assert_eq!(f.first_file_line(&bytes), Ok("hello there".to_string()));
    assert_eq!(f.last_file_line(&bytes), Ok("hello there".to_string()));
}
