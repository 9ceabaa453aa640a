//! Configuration values read from the KDL file, with their mathematical views.
use vstd::prelude::*;

use crate::text::string_of;

verus! {

/// A map from strings to strings, such as the extra `key value` settings of
/// a module block.
///
/// Stored as the list of assignments in the order they were made; a later
/// assignment to a key hides the earlier ones, so the view is a map.
#[derive(Debug, Clone)]
pub struct StringMap {
    entries: Vec<(String, String)>,
}

/// The map that a list of assignments leaves behind: later ones win.
pub open spec fn assignments_map(s: Seq<(Seq<char>, Seq<char>)>) -> Map<Seq<char>, Seq<char>>
    decreases s.len(),
{
    if s.len() == 0 {
        Map::empty()
    } else {
        assignments_map(s.drop_last()).insert(s.last().0, s.last().1)
    }
}

impl StringMap {
    pub closed spec fn assignments(&self) -> Seq<(Seq<char>, Seq<char>)> {
        self.entries@.map_values(|e: (String, String)| (e.0@, e.1@))
    }

    pub open spec fn view(&self) -> Map<Seq<char>, Seq<char>> {
        assignments_map(self.assignments())
    }

    pub fn new() -> (m: Self)
        ensures
            m.view() == Map::<Seq<char>, Seq<char>>::empty(),
    {
        let m = StringMap { entries: Vec::new() };
        assert(m.assignments() =~= Seq::<(Seq<char>, Seq<char>)>::empty());
        m
    }

    /// Sets `key` to `value`, replacing any earlier value.
    pub fn insert(&mut self, key: String, value: String)
        ensures
            final(self).view() == old(self).view().insert(key@, value@),
    {
        let ghost k = key@;
        let ghost v = value@;
        self.entries.push((key, value));
        assert(self.assignments().drop_last() =~= old(self).assignments());
        assert(self.assignments().last() == (k, v));
    }

    /// The value of `key`, if it has one.
    pub fn get(&self, key: &str) -> (r: Option<String>)
        ensures
            match r {
                Some(v) => self.view().contains_key(key@) && self.view()[key@] == v@,
                None => !self.view().contains_key(key@),
            },
    {
        let k = crate::text::chars_of(key);
        let mut i = self.entries.len();
        assert(self.assignments().take(i as int) =~= self.assignments());
        while i > 0
            invariant
                i <= self.entries.len(),
                k@ == key@,
                self.view().contains_key(key@) == assignments_map(
                    self.assignments().take(i as int),
                ).contains_key(key@),
                self.view().contains_key(key@) ==> self.view()[key@] == assignments_map(
                    self.assignments().take(i as int),
                )[key@],
            decreases i,
        {
            let ghost t = self.assignments().take(i as int);
            assert(t.drop_last() =~= self.assignments().take(i - 1));
            assert(t.last() == (self.entries@[i - 1].0@, self.entries@[i - 1].1@));
            let ek = crate::text::chars_of(self.entries[i - 1].0.as_str());
            if crate::text::chars_eq(&ek, &k) {
                return Some(self.entries[i - 1].1.clone());
            }
            i = i - 1;
        }
        None
    }
}

pub proof fn lemma_assignments_map_keys(s: Seq<(Seq<char>, Seq<char>)>, k: Seq<char>)
    ensures
        assignments_map(s).contains_key(k) <==> exists|i: int| 0 <= i < s.len() && #[trigger] s[i].0 == k,
    decreases s.len(),
{
    if s.len() > 0 {
        lemma_assignments_map_keys(s.drop_last(), k);
        if assignments_map(s.drop_last()).contains_key(k) {
            let i = choose|i: int| 0 <= i < s.drop_last().len() && #[trigger] s.drop_last()[i].0 == k;
            assert(s[i].0 == k);
        }
        if exists|i: int| 0 <= i < s.len() && #[trigger] s[i].0 == k {
            let i = choose|i: int| 0 <= i < s.len() && #[trigger] s[i].0 == k;
            if i < s.len() - 1 {
                assert(s.drop_last()[i].0 == k);
            }
        }
    }
}

impl StringMap {
    /// Some key of the map with its value; `None` when the map is empty.
    pub fn first_entry(&self) -> (r: Option<(String, String)>)
        ensures
            match r {
                Some(e) => self.view().contains_key(e.0@) && self.view()[e.0@] == e.1@,
                None => self.view() == Map::<Seq<char>, Seq<char>>::empty(),
            },
    {
        if self.entries.len() == 0 {
            assert(self.assignments() =~= Seq::<(Seq<char>, Seq<char>)>::empty());
            return None;
        }
        let k = self.entries[0].0.clone();
        proof {
            lemma_assignments_map_keys(self.assignments(), k@);
            assert(self.assignments()[0].0 == k@);
        }
        match self.get(k.as_str()) {
            Some(v) => Some((k, v)),
            None => None,
        }
    }
}

/// The whole configuration.
#[derive(Debug, Clone)]
pub struct Config {
    pub bar: BarConfig,
    pub modules: ModulesConfig,
    pub style: StyleConfig,
    pub log_level: String,
}

#[derive(Debug, Clone)]
pub struct BarConfig {
    /// `"top"` or `"bottom"`.
    pub position: String,
    pub height: u32,
    /// One bar per monitor when set; the primary monitor only otherwise.
    pub multi_monitor: bool,
    pub click_through: bool,
}

#[derive(Debug, Clone)]
pub struct ModulesConfig {
    pub left: Vec<ModuleEntry>,
    pub center: Vec<ModuleEntry>,
    pub right: Vec<ModuleEntry>,
}

#[derive(Debug, Clone)]
pub struct ModuleEntry {
    /// `"workspaces"`, `"clock"`, `"cpu"` and so on.
    pub kind: String,
    pub format: String,
    pub interval_ms: u64,
    pub on_click: Option<String>,
    pub on_scroll_up: Option<String>,
    pub on_scroll_down: Option<String>,
    pub extra: StringMap,
}

/// Colours, font and spacing of the bar.
///
/// The font size is a floating-point number, which this library does not
/// read: `font_size_pt_texts` holds every value given for `font-size-pt`, in
/// order, and the size in effect is the last of them that reads as a float
/// (10 when none does).
#[derive(Debug, Clone)]
pub struct StyleConfig {
    pub background: String,
    pub foreground: String,
    pub accent: String,
    pub font_family: String,
    pub font_size_pt_texts: Vec<String>,
    pub padding_px: u32,
    pub module_spacing_px: u32,
}

// ---------------------------------------------------------------------------
// Views
// ---------------------------------------------------------------------------

pub struct BarView {
    pub position: Seq<char>,
    pub height: u32,
    pub multi_monitor: bool,
    pub click_through: bool,
}

pub struct EntryView {
    pub kind: Seq<char>,
    pub format: Seq<char>,
    pub interval_ms: u64,
    pub on_click: Option<Seq<char>>,
    pub on_scroll_up: Option<Seq<char>>,
    pub on_scroll_down: Option<Seq<char>>,
    pub extra: Map<Seq<char>, Seq<char>>,
}

pub struct ModulesView {
    pub left: Seq<EntryView>,
    pub center: Seq<EntryView>,
    pub right: Seq<EntryView>,
}

pub struct StyleView {
    pub background: Seq<char>,
    pub foreground: Seq<char>,
    pub accent: Seq<char>,
    pub font_family: Seq<char>,
    pub font_size_pt_texts: Seq<Seq<char>>,
    pub padding_px: u32,
    pub module_spacing_px: u32,
}

pub struct ConfigView {
    pub bar: BarView,
    pub modules: ModulesView,
    pub style: StyleView,
    pub log_level: Seq<char>,
}

pub open spec fn opt_view(o: Option<String>) -> Option<Seq<char>> {
    match o {
        Some(s) => Some(s@),
        None => None,
    }
}

impl View for BarConfig {
    type V = BarView;

    open spec fn view(&self) -> BarView {
        BarView {
            position: self.position@,
            height: self.height,
            multi_monitor: self.multi_monitor,
            click_through: self.click_through,
        }
    }
}

impl View for ModuleEntry {
    type V = EntryView;

    open spec fn view(&self) -> EntryView {
        EntryView {
            kind: self.kind@,
            format: self.format@,
            interval_ms: self.interval_ms,
            on_click: opt_view(self.on_click),
            on_scroll_up: opt_view(self.on_scroll_up),
            on_scroll_down: opt_view(self.on_scroll_down),
            extra: self.extra.view(),
        }
    }
}

pub open spec fn entries_view(v: Seq<ModuleEntry>) -> Seq<EntryView> {
    v.map_values(|e: ModuleEntry| e@)
}

impl View for ModulesConfig {
    type V = ModulesView;

    open spec fn view(&self) -> ModulesView {
        ModulesView {
            left: entries_view(self.left@),
            center: entries_view(self.center@),
            right: entries_view(self.right@),
        }
    }
}

impl View for StyleConfig {
    type V = StyleView;

    open spec fn view(&self) -> StyleView {
        StyleView {
            background: self.background@,
            foreground: self.foreground@,
            accent: self.accent@,
            font_family: self.font_family@,
            font_size_pt_texts: self.font_size_pt_texts@.map_values(|s: String| s@),
            padding_px: self.padding_px,
            module_spacing_px: self.module_spacing_px,
        }
    }
}

impl View for Config {
    type V = ConfigView;

    open spec fn view(&self) -> ConfigView {
        ConfigView {
            bar: self.bar@,
            modules: self.modules@,
            style: self.style@,
            log_level: self.log_level@,
        }
    }
}

// ---------------------------------------------------------------------------
// Defaults
// ---------------------------------------------------------------------------

pub open spec fn default_bar() -> BarView {
    BarView { position: "top"@, height: 32, multi_monitor: false, click_through: false }
}

pub open spec fn default_entry() -> EntryView {
    EntryView {
        kind: Seq::empty(),
        format: Seq::empty(),
        interval_ms: 1000,
        on_click: None,
        on_scroll_up: None,
        on_scroll_down: None,
        extra: Map::empty(),
    }
}

pub open spec fn default_modules() -> ModulesView {
    ModulesView { left: Seq::empty(), center: Seq::empty(), right: Seq::empty() }
}

pub open spec fn default_style() -> StyleView {
    StyleView {
        background: "#1e1e1eee"@,
        foreground: "#ffffff"@,
        accent: "#7fc8ff"@,
        font_family: "Segoe UI"@,
        font_size_pt_texts: Seq::empty(),
        padding_px: 8,
        module_spacing_px: 12,
    }
}

pub open spec fn default_config() -> ConfigView {
    ConfigView {
        bar: default_bar(),
        modules: default_modules(),
        style: default_style(),
        log_level: "info"@,
    }
}

fn str_string(s: &str) -> (r: String)
    ensures
        r@ == s@,
{
    let v = crate::text::chars_of(s);
    string_of(&v)
}

impl Default for BarConfig {
    fn default() -> (r: Self)
        ensures
            r@ == default_bar(),
    {
        BarConfig {
            position: str_string("top"),
            height: 32,
            multi_monitor: false,
            click_through: false,
        }
    }
}

impl Default for ModuleEntry {
    fn default() -> (r: Self)
        ensures
            r@ == default_entry(),
    {
        ModuleEntry {
            kind: String::new(),
            format: String::new(),
            interval_ms: 1000,
            on_click: None,
            on_scroll_up: None,
            on_scroll_down: None,
            extra: StringMap::new(),
        }
    }
}

impl Default for ModulesConfig {
    fn default() -> (r: Self)
        ensures
            r@ == default_modules(),
    {
        let r = ModulesConfig { left: Vec::new(), center: Vec::new(), right: Vec::new() };
        assert(r@.left =~= Seq::<EntryView>::empty());
        assert(r@.center =~= Seq::<EntryView>::empty());
        assert(r@.right =~= Seq::<EntryView>::empty());
        r
    }
}

impl Default for StyleConfig {
    fn default() -> (r: Self)
        ensures
            r@ == default_style(),
    {
        let r = StyleConfig {
            background: str_string("#1e1e1eee"),
            foreground: str_string("#ffffff"),
            accent: str_string("#7fc8ff"),
            font_family: str_string("Segoe UI"),
            font_size_pt_texts: Vec::new(),
            padding_px: 8,
            module_spacing_px: 12,
        };
        assert(r@.font_size_pt_texts =~= Seq::<Seq<char>>::empty());
        r
    }
}

impl Default for Config {
    fn default() -> (r: Self)
        ensures
            r@ == default_config(),
    {
        Config {
            bar: BarConfig::default(),
            modules: ModulesConfig::default(),
            style: StyleConfig::default(),
            log_level: str_string("info"),
        }
    }
}

} // verus!
