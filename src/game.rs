//! Tabletop game state: games with their players and shops.
use vstd::prelude::*;
use vstd::string::*;
use crate::text::views;
use crate::entries::{
    entries_view, keys_distinct, lemma_distinct_preserved, remove_exec, remove_key, upsert,
    upsert_exec,
};

verus! {

/// Something with a name.
pub trait Name: Sized {
    spec fn name_view(&self) -> Seq<char>;

    fn get_name(&mut self) -> (r: String)
        ensures
            r@ == old(self).name_view(),
            *final(self) == *old(self);

    fn set_name(&mut self, name: &str)
        ensures
            final(self).name_view() == name@;
}

/// Something holding items, each with a count; item names are distinct.
pub trait Inventory: Sized {
    spec fn inventory_view(&self) -> Seq<(Seq<char>, i64)>;

    fn get_inventory(&mut self) -> (r: Vec<(String, i64)>)
        ensures
            entries_view(r@) == old(self).inventory_view(),
            *final(self) == *old(self);

    /// Sets the count of `key`; an empty key is ignored.
    fn set_item(&mut self, key: String, value: i64)
        ensures
            final(self).inventory_view() == if key@.len() == 0 {
                old(self).inventory_view()
            } else {
                upsert(old(self).inventory_view(), key@, value)
            };

    fn remove_item(&mut self, key: String)
        ensures
            final(self).inventory_view() == remove_key(old(self).inventory_view(), key@);
}

fn copy_text_entries(src: &Vec<(String, String)>) -> (r: Vec<(String, String)>)
    ensures
        entries_view(r@) == entries_view(src@),
{
    let mut r: Vec<(String, String)> = Vec::new();
    let mut i: usize = 0;
    while i < src.len()
        invariant
            i <= src@.len(),
            entries_view(r@) == entries_view(src@).take(i as int),
        decreases src@.len() - i,
    {
        let ghost before = entries_view(r@);
        r.push((src[i].0.clone(), src[i].1.clone()));
        assert(entries_view(r@) =~= before.push((src@[i as int].0@, src@[i as int].1@)));
        assert(entries_view(r@) =~= entries_view(src@).take(i + 1));
        i += 1;
    }
    assert(entries_view(src@).take(i as int) =~= entries_view(src@));
    r
}

fn copy_count_entries(src: &Vec<(String, i64)>) -> (r: Vec<(String, i64)>)
    ensures
        entries_view(r@) == entries_view(src@),
{
    let mut r: Vec<(String, i64)> = Vec::new();
    let mut i: usize = 0;
    while i < src.len()
        invariant
            i <= src@.len(),
            entries_view(r@) == entries_view(src@).take(i as int),
        decreases src@.len() - i,
    {
        let ghost before = entries_view(r@);
        r.push((src[i].0.clone(), src[i].1));
        assert(entries_view(r@) =~= before.push((src@[i as int].0@, src@[i as int].1)));
        assert(entries_view(r@) =~= entries_view(src@).take(i + 1));
        i += 1;
    }
    assert(entries_view(src@).take(i as int) =~= entries_view(src@));
    r
}

/// A player: a name, named text stats, and an inventory.
pub struct Player {
    name: String,
    stats: Vec<(String, String)>,
    inventory: Vec<(String, i64)>,
}

/// The content of a player, as values.
pub type PlayerModel = (Seq<char>, Seq<(Seq<char>, Seq<char>)>, Seq<(Seq<char>, i64)>);

impl Player {
    pub closed spec fn model(&self) -> PlayerModel {
        (self.name@, entries_view(self.stats@), entries_view(self.inventory@))
    }

    pub open spec fn name(&self) -> Seq<char> {
        self.model().0
    }

    pub open spec fn stats(&self) -> Seq<(Seq<char>, Seq<char>)> {
        self.model().1
    }

    /// Stat names and item names are distinct.
    pub open spec fn wf(&self) -> bool {
        keys_distinct(self.stats()) && keys_distinct(self.model().2)
    }

    pub fn new() -> (r: Player)
        ensures
            r.name().len() == 0,
            r.stats().len() == 0,
            r.model().2.len() == 0,
            r.wf(),
    {
        let r = Player { name: String::new(), stats: Vec::new(), inventory: Vec::new() };
        assert(entries_view(r.stats@) =~= Seq::<(Seq<char>, Seq<char>)>::empty());
        assert(entries_view(r.inventory@) =~= Seq::<(Seq<char>, i64)>::empty());
        r
    }

    /// A copy of this player.
    pub fn get_instance(&mut self) -> (r: Player)
        ensures
            r.model() == old(self).model(),
            *final(self) == *old(self),
    {
        Player {
            name: self.name.clone(),
            stats: copy_text_entries(&self.stats),
            inventory: copy_count_entries(&self.inventory),
        }
    }

    pub fn get_stats(&mut self) -> (r: Vec<(String, String)>)
        ensures
            entries_view(r@) == old(self).stats(),
            *final(self) == *old(self),
    {
        copy_text_entries(&self.stats)
    }

    /// Sets the stat `key`; an empty key is ignored.
    pub fn set_stat(&mut self, key: String, value: String)
        requires
            old(self).wf(),
        ensures
            final(self).wf(),
            final(self).stats() == if key@.len() == 0 {
                old(self).stats()
            } else {
                upsert(old(self).stats(), key@, value@)
            },
            final(self).name() == old(self).name(),
            final(self).model().2 == old(self).model().2,
    {
        if key.as_str().unicode_len() == 0 {
            return;
        }
        proof {
            lemma_distinct_preserved(entries_view(self.stats@), key@, value@);
        }
        upsert_exec(&mut self.stats, key, value);
    }

    pub fn remove_stat(&mut self, key: String)
        requires
            old(self).wf(),
        ensures
            final(self).wf(),
            final(self).stats() == remove_key(old(self).stats(), key@),
            final(self).name() == old(self).name(),
            final(self).model().2 == old(self).model().2,
    {
        proof {
            lemma_distinct_preserved(entries_view(self.stats@), key@, Seq::<char>::empty());
        }
        remove_exec(&mut self.stats, &key);
    }
}

impl Name for Player {
    open spec fn name_view(&self) -> Seq<char> {
        self.name()
    }

    fn get_name(&mut self) -> (r: String) {
        self.name.clone()
    }

    fn set_name(&mut self, name: &str) {
        self.name = String::from_str(name);
    }
}

impl Inventory for Player {
    open spec fn inventory_view(&self) -> Seq<(Seq<char>, i64)> {
        self.model().2
    }

    fn get_inventory(&mut self) -> (r: Vec<(String, i64)>) {
        copy_count_entries(&self.inventory)
    }

    fn set_item(&mut self, key: String, value: i64) {
        if key.as_str().unicode_len() == 0 {
            return;
        }
        upsert_exec(&mut self.inventory, key, value);
    }

    fn remove_item(&mut self, key: String) {
        remove_exec(&mut self.inventory, &key);
    }
}

/// A shop: a name and an inventory.
pub struct Shop {
    name: String,
    inventory: Vec<(String, i64)>,
}

/// The content of a shop, as values.
pub type ShopModel = (Seq<char>, Seq<(Seq<char>, i64)>);

impl Shop {
    pub closed spec fn model(&self) -> ShopModel {
        (self.name@, entries_view(self.inventory@))
    }

    pub open spec fn name(&self) -> Seq<char> {
        self.model().0
    }

    pub fn new() -> (r: Shop)
        ensures
            r.name().len() == 0,
            r.model().1.len() == 0,
    {
        let r = Shop { name: String::new(), inventory: Vec::new() };
        assert(entries_view(r.inventory@) =~= Seq::<(Seq<char>, i64)>::empty());
        r
    }

    /// A copy of this shop.
    pub fn get_instance(&mut self) -> (r: Shop)
        ensures
            r.model() == old(self).model(),
            *final(self) == *old(self),
    {
        Shop { name: self.name.clone(), inventory: copy_count_entries(&self.inventory) }
    }
}

impl Name for Shop {
    open spec fn name_view(&self) -> Seq<char> {
        self.name()
    }

    fn get_name(&mut self) -> (r: String) {
        self.name.clone()
    }

    fn set_name(&mut self, name: &str) {
        self.name = String::from_str(name);
    }
}

impl Inventory for Shop {
    open spec fn inventory_view(&self) -> Seq<(Seq<char>, i64)> {
        self.model().1
    }

    fn get_inventory(&mut self) -> (r: Vec<(String, i64)>) {
        copy_count_entries(&self.inventory)
    }

    fn set_item(&mut self, key: String, value: i64) {
        if key.as_str().unicode_len() == 0 {
            return;
        }
        upsert_exec(&mut self.inventory, key, value);
    }

    fn remove_item(&mut self, key: String) {
        remove_exec(&mut self.inventory, &key);
    }
}

/// `i` is the first position holding an item named `n`.
pub open spec fn first_named<T: Name>(s: Seq<T>, n: Seq<char>, i: int) -> bool {
    0 <= i < s.len() && s[i].name_view() == n && forall|j: int|
        0 <= j < i ==> (#[trigger] s[j]).name_view() != n
}

pub open spec fn has_named<T: Name>(s: Seq<T>, n: Seq<char>) -> bool {
    exists|i: int| 0 <= i < s.len() && (#[trigger] s[i]).name_view() == n
}

/// Adds `x` by name: an item of the same name is replaced in place, else `x` goes last.
pub open spec fn put_named<T: Name>(s: Seq<T>, x: T) -> Seq<T> {
    if has_named(s, x.name_view()) {
        s.update(choose|i: int| first_named(s, x.name_view(), i), x)
    } else {
        s.push(x)
    }
}

pub open spec fn player_models(s: Seq<Player>) -> Seq<PlayerModel> {
    s.map_values(|p: Player| p.model())
}

pub open spec fn shop_models(s: Seq<Shop>) -> Seq<ShopModel> {
    s.map_values(|p: Shop| p.model())
}

proof fn lemma_first_named_unique<T: Name>(s: Seq<T>, n: Seq<char>, i: int)
    requires
        first_named(s, n, i),
    ensures
        has_named(s, n),
        (choose|c: int| first_named(s, n, c)) == i,
{
    let c = choose|c: int| first_named(s, n, c);
    assert(c == i) by {
        if c < i {
            assert(s[c].name_view() == n);
        } else if c > i {
            assert(s[i].name_view() == n);
        }
    }
}

fn find_player(s: &Vec<Player>, n: &str) -> (r: Option<usize>)
    ensures
        match r {
            Some(i) => first_named(s@, n@, i as int),
            None => !has_named(s@, n@),
        },
{
    let key = String::from_str(n);
    let mut i: usize = 0;
    while i < s.len()
        invariant
            i <= s@.len(),
            key@ == n@,
            forall|j: int| 0 <= j < i ==> (#[trigger] s@[j]).name_view() != n@,
        decreases s@.len() - i,
    {
        if s[i].name == key {
            return Some(i);
        }
        i += 1;
    }
    None
}

fn find_shop(s: &Vec<Shop>, n: &str) -> (r: Option<usize>)
    ensures
        match r {
            Some(i) => first_named(s@, n@, i as int),
            None => !has_named(s@, n@),
        },
{
    let key = String::from_str(n);
    let mut i: usize = 0;
    while i < s.len()
        invariant
            i <= s@.len(),
            key@ == n@,
            forall|j: int| 0 <= j < i ==> (#[trigger] s@[j]).name_view() != n@,
        decreases s@.len() - i,
    {
        if s[i].name == key {
            return Some(i);
        }
        i += 1;
    }
    None
}

fn copy_players(s: &Vec<Player>) -> (r: Vec<Player>)
    ensures
        player_models(r@) == player_models(s@),
{
    let mut r: Vec<Player> = Vec::new();
    let mut i: usize = 0;
    while i < s.len()
        invariant
            i <= s@.len(),
            player_models(r@) == player_models(s@).take(i as int),
        decreases s@.len() - i,
    {
        let p = Player {
            name: s[i].name.clone(),
            stats: copy_text_entries(&s[i].stats),
            inventory: copy_count_entries(&s[i].inventory),
        };
        let ghost before = player_models(r@);
        r.push(p);
        assert(player_models(r@) =~= before.push(s@[i as int].model()));
        assert(player_models(r@) =~= player_models(s@).take(i + 1));
        i += 1;
    }
    assert(player_models(s@).take(i as int) =~= player_models(s@));
    r
}

fn copy_shops(s: &Vec<Shop>) -> (r: Vec<Shop>)
    ensures
        shop_models(r@) == shop_models(s@),
{
    let mut r: Vec<Shop> = Vec::new();
    let mut i: usize = 0;
    while i < s.len()
        invariant
            i <= s@.len(),
            shop_models(r@) == shop_models(s@).take(i as int),
        decreases s@.len() - i,
    {
        let p = Shop { name: s[i].name.clone(), inventory: copy_count_entries(&s[i].inventory) };
        let ghost before = shop_models(r@);
        r.push(p);
        assert(shop_models(r@) =~= before.push(s@[i as int].model()));
        assert(shop_models(r@) =~= shop_models(s@).take(i + 1));
        i += 1;
    }
    assert(shop_models(s@).take(i as int) =~= shop_models(s@));
    r
}

/// A game: a name, its players and its shops, each found by name.
pub struct Game {
    name: String,
    players: Vec<Player>,
    shops: Vec<Shop>,
}

impl Game {
    pub closed spec fn name(&self) -> Seq<char> {
        self.name@
    }

    pub closed spec fn players(&self) -> Seq<Player> {
        self.players@
    }

    pub closed spec fn shops(&self) -> Seq<Shop> {
        self.shops@
    }

    pub fn new() -> (r: Game)
        ensures
            r.name().len() == 0,
            r.players().len() == 0,
            r.shops().len() == 0,
    {
        Game { name: String::new(), players: Vec::new(), shops: Vec::new() }
    }

    /// A copy of this game.
    pub fn get_instance(&mut self) -> (r: Game)
        ensures
            r.name() == old(self).name(),
            player_models(r.players()) == player_models(old(self).players()),
            shop_models(r.shops()) == shop_models(old(self).shops()),
            *final(self) == *old(self),
    {
        Game {
            name: self.name.clone(),
            players: copy_players(&self.players),
            shops: copy_shops(&self.shops),
        }
    }

    /// Adds `player`, replacing the player of the same name; a player without
    /// a name is ignored.
    pub fn add_player(&mut self, player: Player)
        ensures
            final(self).players() == if player.name().len() == 0 {
                old(self).players()
            } else {
                put_named(old(self).players(), player)
            },
            final(self).shops() == old(self).shops(),
            final(self).name() == old(self).name(),
    {
        if player.name.as_str().unicode_len() == 0 {
            return;
        }
        match find_player(&self.players, player.name.as_str()) {
            Some(i) => {
                proof {
                    lemma_first_named_unique(self.players@, player.name_view(), i as int);
                }
                self.players.set(i, player);
            },
            None => {
                self.players.push(player);
            },
        }
    }

    /// A copy of the first player named `player_name`, who must exist.
    pub fn get_single_player(&mut self, player_name: &str) -> (r: Player)
        requires
            has_named(old(self).players(), player_name@),
        ensures
            exists|i: int|
                first_named(old(self).players(), player_name@, i) && r.model() == old(
                    self,
                ).players()[i].model(),
            *final(self) == *old(self),
    {
        match find_player(&self.players, player_name) {
            Some(i) => {
                let p = &self.players[i];
                Player {
                    name: p.name.clone(),
                    stats: copy_text_entries(&p.stats),
                    inventory: copy_count_entries(&p.inventory),
                }
            },
            None => {
                proof {
                    assert(false);
                }
                Player::new()
            },
        }
    }

    /// Copies of all players, in order.
    pub fn get_players(&mut self) -> (r: Vec<Player>)
        ensures
            player_models(r@) == player_models(old(self).players()),
            *final(self) == *old(self),
    {
        copy_players(&self.players)
    }

    /// Removes the first player named `player_name`, who must exist.
    pub fn remove_player(&mut self, player_name: &str)
        requires
            has_named(old(self).players(), player_name@),
        ensures
            exists|i: int|
                first_named(old(self).players(), player_name@, i) && final(self).players() == old(
                    self,
                ).players().remove(i),
            final(self).shops() == old(self).shops(),
            final(self).name() == old(self).name(),
    {
        if let Some(i) = find_player(&self.players, player_name) {
            self.players.remove(i);
        }
    }

    /// Adds `shop`, replacing the shop of the same name; a shop without a
    /// name is ignored.
    pub fn add_shop(&mut self, shop: Shop)
        ensures
            final(self).shops() == if shop.name().len() == 0 {
                old(self).shops()
            } else {
                put_named(old(self).shops(), shop)
            },
            final(self).players() == old(self).players(),
            final(self).name() == old(self).name(),
    {
        if shop.name.as_str().unicode_len() == 0 {
            return;
        }
        match find_shop(&self.shops, shop.name.as_str()) {
            Some(i) => {
                proof {
                    lemma_first_named_unique(self.shops@, shop.name_view(), i as int);
                }
                self.shops.set(i, shop);
            },
            None => {
                self.shops.push(shop);
            },
        }
    }

    /// Removes the first shop named `shop_name`, which must exist.
    pub fn remove_shop(&mut self, shop_name: &str)
        requires
            has_named(old(self).shops(), shop_name@),
        ensures
            exists|i: int|
                first_named(old(self).shops(), shop_name@, i) && final(self).shops() == old(
                    self,
                ).shops().remove(i),
            final(self).players() == old(self).players(),
            final(self).name() == old(self).name(),
    {
        if let Some(i) = find_shop(&self.shops, shop_name) {
            self.shops.remove(i);
        }
    }

    /// A copy of the first shop named `shop_name`, which must exist.
    pub fn get_single_shop(&mut self, shop_name: &str) -> (r: Shop)
        requires
            has_named(old(self).shops(), shop_name@),
        ensures
            exists|i: int|
                first_named(old(self).shops(), shop_name@, i) && r.model() == old(
                    self,
                ).shops()[i].model(),
            *final(self) == *old(self),
    {
        match find_shop(&self.shops, shop_name) {
            Some(i) => {
                let s = &self.shops[i];
                Shop { name: s.name.clone(), inventory: copy_count_entries(&s.inventory) }
            },
            None => {
                proof {
                    assert(false);
                }
                Shop::new()
            },
        }
    }

    /// Copies of all shops, in order.
    pub fn get_shops(&mut self) -> (r: Vec<Shop>)
        ensures
            shop_models(r@) == shop_models(old(self).shops()),
            *final(self) == *old(self),
    {
        copy_shops(&self.shops)
    }
}

impl Name for Game {
    open spec fn name_view(&self) -> Seq<char> {
        self.name()
    }

    fn get_name(&mut self) -> (r: String) {
        self.name.clone()
    }

    fn set_name(&mut self, name: &str) {
        self.name = String::from_str(name);
    }
}

pub type GameModel = (Seq<char>, Seq<PlayerModel>, Seq<ShopModel>);

pub open spec fn game_models(s: Seq<Game>) -> Seq<GameModel> {
    s.map_values(|g: Game| g.model())
}

impl Game {
    pub open spec fn model(&self) -> GameModel {
        (self.name(), player_models(self.players()), shop_models(self.shops()))
    }

    fn copy(&self) -> (r: Game)
        ensures
            r.model() == self.model(),
    {
        Game {
            name: self.name.clone(),
            players: copy_players(&self.players),
            shops: copy_shops(&self.shops),
        }
    }
}

fn find_game(s: &Vec<Game>, n: &str) -> (r: Option<usize>)
    ensures
        match r {
            Some(i) => first_named(s@, n@, i as int),
            None => !has_named(s@, n@),
        },
{
    let key = String::from_str(n);
    let mut i: usize = 0;
    while i < s.len()
        invariant
            i <= s@.len(),
            key@ == n@,
            forall|j: int| 0 <= j < i ==> (#[trigger] s@[j]).name_view() != n@,
        decreases s@.len() - i,
    {
        if s[i].name == key {
            return Some(i);
        }
        i += 1;
    }
    None
}

/// Why a game could not be given.
#[derive(Debug, Clone, Copy, PartialEq, Eq, Structural)]
pub enum GameError {
    /// No game has that title.
    NotFound,
}

/// The saved games and the file they are kept in.
pub struct GameData {
    file: String,
    games: Vec<Game>,
}

impl GameData {
    pub closed spec fn path(&self) -> Seq<char> {
        self.file@
    }

    pub closed spec fn games(&self) -> Seq<Game> {
        self.games@
    }

    /// The games kept in `file`, as loaded from it.
    pub fn from_games(file: &str, games: Vec<Game>) -> (r: GameData)
        ensures
            r.path() == file@,
            r.games() == games@,
    {
        GameData { file: String::from_str(file), games }
    }

    /// The titles of the games, in order.
    pub fn game_list(&mut self) -> (r: Vec<String>)
        ensures
            views(r@) == old(self).games().map_values(|g: Game| g.name()),
            *final(self) == *old(self),
    {
        let mut r: Vec<String> = Vec::new();
        let mut i: usize = 0;
        while i < self.games.len()
            invariant
                i <= self.games@.len(),
                views(r@) == self.games@.map_values(|g: Game| g.name()).take(i as int),
            decreases self.games@.len() - i,
        {
            let ghost before = views(r@);
            r.push(self.games[i].name.clone());
            assert(views(r@) =~= before.push(self.games@[i as int].name()));
            assert(views(r@) =~= self.games@.map_values(|g: Game| g.name()).take(i + 1));
            i += 1;
        }
        assert(self.games@.map_values(|g: Game| g.name()).take(i as int) =~= self.games@.map_values(
            |g: Game| g.name(),
        ));
        r
    }

    /// A copy of the first game titled `title`.
    pub fn get_game(&mut self, title: &str) -> (r: Result<Game, GameError>)
        ensures
            *final(self) == *old(self),
            match r {
                Ok(g) => exists|i: int|
                    first_named(old(self).games(), title@, i) && g.model() == old(
                        self,
                    ).games()[i].model(),
                Err(e) => e == GameError::NotFound && !has_named(old(self).games(), title@),
            },
    {
        match find_game(&self.games, title) {
            Some(i) => {
                let g = self.games[i].copy();
                assert(first_named(self.games(), title@, i as int) && g.model()
                    == self.games()[i as int].model());
                Ok(g)
            },
            None => Err(GameError::NotFound),
        }
    }

    /// Adds `game`, replacing the game of the same title.
    pub fn add_game(&mut self, game: Game)
        ensures
            final(self).games() == put_named(old(self).games(), game),
            final(self).path() == old(self).path(),
    {
        match find_game(&self.games, game.name.as_str()) {
            Some(i) => {
                proof {
                    lemma_first_named_unique(self.games@, game.name_view(), i as int);
                }
                self.games.set(i, game);
            },
            None => {
                self.games.push(game);
            },
        }
    }

    /// Removes the first game titled `title`, if there is one.
    pub fn remove_game(&mut self, title: &str)
        ensures
            has_named(old(self).games(), title@) ==> exists|i: int|
                first_named(old(self).games(), title@, i) && final(self).games() == old(
                    self,
                ).games().remove(i),
            !has_named(old(self).games(), title@) ==> final(self).games() == old(self).games(),
            final(self).path() == old(self).path(),
    {
        if let Some(i) = find_game(&self.games, title) {
            self.games.remove(i);
        }
    }

    pub fn get_path(&mut self) -> (r: String)
        ensures
            r@ == old(self).path(),
            *final(self) == *old(self),
    {
        self.file.clone()
    }

    /// All games, to be saved.
    pub fn get_games(&self) -> (r: Vec<Game>)
        ensures
            game_models(r@) == game_models(self.games()),
    {
        let mut r: Vec<Game> = Vec::new();
        let mut i: usize = 0;
        while i < self.games.len()
            invariant
                i <= self.games@.len(),
                game_models(r@) == game_models(self.games@).take(i as int),
            decreases self.games@.len() - i,
        {
            let ghost before = game_models(r@);
            r.push(self.games[i].copy());
            assert(game_models(r@) =~= before.push(self.games@[i as int].model()));
            assert(game_models(r@) =~= game_models(self.games@).take(i + 1));
            i += 1;
        }
        assert(game_models(self.games@).take(i as int) =~= game_models(self.games@));
        r
    }
}

} // verus!
