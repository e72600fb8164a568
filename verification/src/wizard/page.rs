//! What a screen shows, as a list of items from top to bottom. Colours, spacing
//! and fonts are the window's business; what stands where, what a button does
//! and whether it can be pressed is decided here.
use vstd::prelude::*;
use vstd::string::*;

verus! {

#[derive(Debug, PartialEq, Eq, Clone, Copy, Structural)]
pub enum Tone {
    Plain,
    Strong,
    Weak,
    /// Weak and small.
    Small,
    Good,
    Bad,
    Warn,
}

/// What the user can edit.
#[derive(Debug, PartialEq, Eq, Clone, Copy, Structural)]
pub enum Field {
    Host,
    Password,
    Images,
}

/// What the user can ask for.
#[derive(Debug)]
pub enum Action {
    Scan,
    /// Install to this address.
    Pick(String),
    Connect,
    /// Take the controller for this board.
    Force(String),
    Unforce,
    ToggleDetails,
    ToggleSelfInstall,
    Download,
    /// The release's path was edited.
    Edited,
    Browse,
    Folder,
    Load,
    Install,
    /// Only write the root filesystem: the rest already landed.
    Finish,
    Reset,
    Back,
    Next,
    CopyLog,
    ClearLog,
    UpdateFlasher,
}

pub ghost enum ActionModel {
    Scan,
    Pick(Seq<char>),
    Connect,
    Force(Seq<char>),
    Unforce,
    ToggleDetails,
    ToggleSelfInstall,
    Download,
    Edited,
    Browse,
    Folder,
    Load,
    Install,
    Finish,
    Reset,
    Back,
    Next,
    CopyLog,
    ClearLog,
    UpdateFlasher,
}

impl View for Action {
    type V = ActionModel;

    open spec fn view(&self) -> ActionModel {
        match self {
            Action::Scan => ActionModel::Scan,
            Action::Pick(s) => ActionModel::Pick(s@),
            Action::Connect => ActionModel::Connect,
            Action::Force(s) => ActionModel::Force(s@),
            Action::Unforce => ActionModel::Unforce,
            Action::ToggleDetails => ActionModel::ToggleDetails,
            Action::ToggleSelfInstall => ActionModel::ToggleSelfInstall,
            Action::Download => ActionModel::Download,
            Action::Edited => ActionModel::Edited,
            Action::Browse => ActionModel::Browse,
            Action::Folder => ActionModel::Folder,
            Action::Load => ActionModel::Load,
            Action::Install => ActionModel::Install,
            Action::Finish => ActionModel::Finish,
            Action::Reset => ActionModel::Reset,
            Action::Back => ActionModel::Back,
            Action::Next => ActionModel::Next,
            Action::CopyLog => ActionModel::CopyLog,
            Action::ClearLog => ActionModel::ClearLog,
            Action::UpdateFlasher => ActionModel::UpdateFlasher,
        }
    }
}

#[derive(Debug)]
pub enum Item {
    /// The items up to the end mark share a line.
    Line,
    LineEnd,
    Heading(Tone, String),
    Text(Tone, String),
    /// In the fixed-width font.
    Mono(Tone, String),
    /// A row of a table: what it is, and its value, fixed-width or not.
    Row(String, Tone, bool, String),
    /// A button, and whether it can be pressed.
    Button(String, bool, Action),
    /// One of a list of things to pick, and whether it is the picked one.
    Choice(bool, String, Action),
    /// An editable field with a hint, and whether it hides what is typed.
    Input(Field, String, bool),
    /// A tick box with a label and a hint.
    Check(bool, String, String, Action),
    /// A menu: what it shows when closed. Its choices follow, up to the end mark.
    Menu(String),
    MenuEnd,
    /// How far along: so much of so much, or simply working.
    Progress(Option<(u64, u64)>),
    Spinner,
    Rule,
}

pub ghost enum ItemModel {
    Line,
    LineEnd,
    Heading(Tone, Seq<char>),
    Text(Tone, Seq<char>),
    Mono(Tone, Seq<char>),
    Row(Seq<char>, Tone, bool, Seq<char>),
    Button(Seq<char>, bool, ActionModel),
    Choice(bool, Seq<char>, ActionModel),
    Input(Field, Seq<char>, bool),
    Check(bool, Seq<char>, Seq<char>, ActionModel),
    Menu(Seq<char>),
    MenuEnd,
    Progress(Option<(u64, u64)>),
    Spinner,
    Rule,
}

impl View for Item {
    type V = ItemModel;

    open spec fn view(&self) -> ItemModel {
        match self {
            Item::Line => ItemModel::Line,
            Item::LineEnd => ItemModel::LineEnd,
            Item::Heading(t, s) => ItemModel::Heading(*t, s@),
            Item::Text(t, s) => ItemModel::Text(*t, s@),
            Item::Mono(t, s) => ItemModel::Mono(*t, s@),
            Item::Row(k, t, m, v) => ItemModel::Row(k@, *t, *m, v@),
            Item::Button(s, on, a) => ItemModel::Button(s@, *on, a@),
            Item::Choice(on, s, a) => ItemModel::Choice(*on, s@, a@),
            Item::Input(f, h, secret) => ItemModel::Input(*f, h@, *secret),
            Item::Check(on, s, h, a) => ItemModel::Check(*on, s@, h@, a@),
            Item::Menu(s) => ItemModel::Menu(s@),
            Item::MenuEnd => ItemModel::MenuEnd,
            Item::Progress(p) => ItemModel::Progress(*p),
            Item::Spinner => ItemModel::Spinner,
            Item::Rule => ItemModel::Rule,
        }
    }
}

/// The models of a list of items.
pub open spec fn items(v: Seq<Item>) -> Seq<ItemModel> {
    v.map_values(|i: Item| i@)
}

/// A screen, or a part of one.
#[derive(Debug)]
pub struct Page {
    pub items: Vec<Item>,
}

impl View for Page {
    type V = Seq<ItemModel>;

    open spec fn view(&self) -> Seq<ItemModel> {
        items(self.items@)
    }
}

impl Page {
    pub fn new() -> (r: Page)
        ensures
            r@ == Seq::<ItemModel>::empty(),
    {
        let r = Page { items: Vec::new() };
        assert(items(r.items@) =~= seq![]);
        r
    }

    pub fn put(&mut self, i: Item)
        ensures
            final(self)@ == old(self)@.push(i@),
    {
        let ghost was = items(self.items@);
        let ghost m = i@;
        self.items.push(i);
        assert(items(self.items@) =~= was.push(m));
    }

    pub fn heading(&mut self, s: &str)
        ensures
            final(self)@ == old(self)@.push(ItemModel::Heading(Tone::Plain, s@)),
    {
        self.put(Item::Heading(Tone::Plain, String::from_str(s)));
    }

    pub fn text(&mut self, t: Tone, s: &str)
        ensures
            final(self)@ == old(self)@.push(ItemModel::Text(t, s@)),
    {
        self.put(Item::Text(t, String::from_str(s)));
    }

    pub fn mono(&mut self, t: Tone, s: &str)
        ensures
            final(self)@ == old(self)@.push(ItemModel::Mono(t, s@)),
    {
        self.put(Item::Mono(t, String::from_str(s)));
    }

    pub fn row(&mut self, k: &str, t: Tone, mono: bool, v: &str)
        ensures
            final(self)@ == old(self)@.push(ItemModel::Row(k@, t, mono, v@)),
    {
        self.put(Item::Row(String::from_str(k), t, mono, String::from_str(v)));
    }

    pub fn button(&mut self, s: &str, on: bool, a: Action)
        ensures
            final(self)@ == old(self)@.push(ItemModel::Button(s@, on, a@)),
    {
        self.put(Item::Button(String::from_str(s), on, a));
    }

    pub fn input(&mut self, f: Field, hint: &str, secret: bool)
        ensures
            final(self)@ == old(self)@.push(ItemModel::Input(f, hint@, secret)),
    {
        self.put(Item::Input(f, String::from_str(hint), secret));
    }

    pub fn check(&mut self, on: bool, s: &str, hint: &str, a: Action)
        ensures
            final(self)@ == old(self)@.push(ItemModel::Check(on, s@, hint@, a@)),
    {
        self.put(Item::Check(on, String::from_str(s), String::from_str(hint), a));
    }
}

} // verus!
