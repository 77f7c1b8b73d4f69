//! Launchable items: desktop applications and names found on the search path,
//! and how one filesystem entry is classified into an item.
use vstd::prelude::*;
use vstd::string::*;
use freedesktop_entry_parser::Entry;
use crate::command::{command_tokens, command_tokens_of};
use crate::entry::{entry_attr, entry_attrs, parse_entry_bytes, parsed_attrs};
use crate::text::{char_vec, ends_with_chars, has_suffix};

verus! {

/// A launchable thing found while building the catalog.
pub enum Item {
    /// An application described by a desktop entry file.
    Desktop {
        /// The entry's `Name`.
        name: String,
        /// The file name without its `.desktop` suffix.
        filename: String,
        /// Whether the entry asks to run inside a terminal.
        terminal: bool,
        /// The program to start.
        program: String,
        /// Its arguments, field codes removed.
        args: Vec<String>,
        /// The entry's `Path`, the directory to start the program in.
        working_dir: Option<String>,
        /// The directory the entry file was found in.
        dir: String,
    },
    /// A file found in a directory of the executable search path.
    Path {
        /// The file name, unchanged.
        name: String,
        /// The directory it was found in.
        dir: String,
    },
}

/// The mathematical value of an [`Item`].
pub enum ItemView {
    Desktop {
        name: Seq<char>,
        short_id: Seq<char>,
        terminal: bool,
        program: Seq<char>,
        args: Seq<Seq<char>>,
        working_dir: Option<Seq<char>>,
        dir: Seq<char>,
    },
    Path { name: Seq<char>, dir: Seq<char> },
}

impl ItemView {
    /// The name shown to the user.
    pub open spec fn display_name(self) -> Seq<char> {
        match self {
            ItemView::Desktop { name, .. } => name,
            ItemView::Path { name, .. } => name,
        }
    }

    /// The identifier derived from the file name.
    pub open spec fn short_id(self) -> Seq<char> {
        match self {
            ItemView::Desktop { short_id, .. } => short_id,
            ItemView::Path { name, .. } => name,
        }
    }

    pub open spec fn is_desktop(self) -> bool {
        self is Desktop
    }

    /// The directory the item was found in.
    pub open spec fn source_dir(self) -> Seq<char> {
        match self {
            ItemView::Desktop { dir, .. } => dir,
            ItemView::Path { dir, .. } => dir,
        }
    }

    /// Every item has a non-empty identifier; a desktop item also has a
    /// non-empty display name and program.
    pub open spec fn well_formed(self) -> bool {
        match self {
            ItemView::Desktop { name, short_id, program, .. } => name.len() > 0 && short_id.len()
                > 0 && program.len() > 0,
            ItemView::Path { name, .. } => name.len() > 0,
        }
    }
}

pub open spec fn opt_view(o: Option<String>) -> Option<Seq<char>> {
    match o {
        Some(s) => Some(s@),
        None => None,
    }
}

pub open spec fn strings_view(v: Seq<String>) -> Seq<Seq<char>> {
    v.map_values(|s: String| s@)
}

impl View for Item {
    type V = ItemView;

    open spec fn view(&self) -> ItemView {
        match self {
            Item::Desktop { name, filename, terminal, program, args, working_dir, dir } => {
                ItemView::Desktop {
                    name: name@,
                    short_id: filename@,
                    terminal: *terminal,
                    program: program@,
                    args: strings_view(args@),
                    working_dir: opt_view(*working_dir),
                    dir: dir@,
                }
            },
            Item::Path { name, dir } => ItemView::Path { name: name@, dir: dir@ },
        }
    }
}

/// The section of a desktop entry file that describes the application.
pub open spec fn desktop_section() -> Seq<char> {
    "Desktop Entry"@
}

/// `filename` names a desktop entry file.
pub open spec fn is_desktop_filename(filename: Seq<char>) -> bool {
    has_suffix(filename, ".desktop"@)
}

/// A desktop entry file's name without the `.desktop` suffix.
pub open spec fn desktop_short_id(filename: Seq<char>) -> Seq<char> {
    filename.subrange(0, filename.len() - ".desktop"@.len())
}

/// The desktop item with identifier `short_id` made of a desktop entry's
/// attributes: `None` where the identifier is empty, where `Name` or `Exec` is
/// missing or empty, or where the first token of `Exec` left once the field
/// codes are removed is missing or empty.
pub open spec fn desktop_item_of(
    short_id: Seq<char>,
    dir: Seq<char>,
    name: Option<Seq<char>>,
    exec: Option<Seq<char>>,
    terminal: Option<Seq<char>>,
    path: Option<Seq<char>>,
) -> Option<ItemView> {
    match (name, exec) {
        (Some(n), Some(e)) => {
            let toks = command_tokens_of(e);
            if short_id.len() == 0 || n.len() == 0 || toks.len() == 0 || toks[0].len() == 0 {
                None
            } else {
                Some(
                    ItemView::Desktop {
                        name: n,
                        short_id,
                        terminal: terminal == Some("true"@),
                        program: toks[0],
                        args: toks.drop_first(),
                        working_dir: path,
                        dir,
                    },
                )
            }
        },
        _ => None,
    }
}

/// The value stored under `key` in the application section of `attrs`.
pub open spec fn attr_in(attrs: Map<(Seq<char>, Seq<char>), Seq<char>>, key: Seq<char>) -> Option<
    Seq<char>,
> {
    if attrs.contains_key((desktop_section(), key)) {
        Some(attrs[(desktop_section(), key)])
    } else {
        None
    }
}

/// The desktop item made of a parsed entry's attributes.
pub open spec fn desktop_item_from_attrs(
    short_id: Seq<char>,
    dir: Seq<char>,
    attrs: Map<(Seq<char>, Seq<char>), Seq<char>>,
) -> Option<ItemView> {
    desktop_item_of(
        short_id,
        dir,
        attr_in(attrs, "Name"@),
        attr_in(attrs, "Exec"@),
        attr_in(attrs, "Terminal"@),
        attr_in(attrs, "Path"@),
    )
}

/// The item that the file `filename` in `dir` becomes, given its contents
/// (`None` where they could not be read): a desktop entry file becomes a
/// desktop item or nothing, any other file with a non-empty name a path item.
/// No item with an empty identifier is made.
pub open spec fn classify(filename: Seq<char>, dir: Seq<char>, contents: Option<Seq<u8>>) -> Option<
    ItemView,
> {
    if is_desktop_filename(filename) {
        match contents {
            None => None,
            Some(b) => match parsed_attrs(b) {
                None => None,
                Some(attrs) => desktop_item_from_attrs(desktop_short_id(filename), dir, attrs),
            },
        }
    } else if filename.len() == 0 {
        None
    } else {
        Some(ItemView::Path { name: filename, dir })
    }
}

pub open spec fn opt_item_view(o: Option<Item>) -> Option<ItemView> {
    match o {
        Some(it) => Some(it@),
        None => None,
    }
}

pub open spec fn opt_bytes_view(o: Option<&[u8]>) -> Option<Seq<u8>> {
    match o {
        Some(b) => Some(b@),
        None => None,
    }
}

/// Whether `t` is exactly `true`.
fn is_true_literal(t: &str) -> (r: bool)
    ensures
        r == (t@ == "true"@),
{
    let cs = char_vec(t);
    proof {
        reveal_strlit("true");
    }
    let r = cs.len() == 4 && cs[0] == 't' && cs[1] == 'r' && cs[2] == 'u' && cs[3] == 'e';
    if r {
        assert(t@ =~= "true"@);
    }
    r
}

/// Whether `filename` names a desktop entry file.
pub fn is_desktop_file(filename: &str) -> (r: bool)
    ensures
        r == is_desktop_filename(filename@),
{
    let f = char_vec(filename);
    let sfx = char_vec(".desktop");
    ends_with_chars(&f, &sfx)
}

/// `filename` without its `.desktop` suffix; unchanged where it has none.
pub fn strip_desktop_suffix(filename: &str) -> (r: String)
    ensures
        r@ == if is_desktop_filename(filename@) {
            desktop_short_id(filename@)
        } else {
            filename@
        },
{
    if is_desktop_file(filename) {
        let n = filename.unicode_len();
        let sfx_len = char_vec(".desktop").len();
        filename.substring_char(0, n - sfx_len).to_owned()
    } else {
        filename.to_owned()
    }
}

pub(crate) fn clone_strings(v: &Vec<String>) -> (r: Vec<String>)
    ensures
        r@ == v@,
{
    let mut r: Vec<String> = Vec::new();
    let mut i: usize = 0;
    while i < v.len()
        invariant
            i <= v@.len(),
            r@ == v@.take(i as int),
        decreases v@.len() - i,
    {
        r.push(v[i].clone());
        i = i + 1;
        assert(r@ =~= v@.take(i as int));
    }
    assert(r@ =~= v@);
    r
}

impl Item {
    /// Builds a desktop item from the attributes of a desktop entry file
    /// whose identifier is `short_id`.
    pub fn from_attributes(
        short_id: &str,
        dir: &str,
        name: Option<String>,
        exec: Option<String>,
        terminal: Option<String>,
        path: Option<String>,
    ) -> (r: Option<Item>)
        ensures
            opt_item_view(r) == desktop_item_of(
                short_id@,
                dir@,
                opt_view(name),
                opt_view(exec),
                opt_view(terminal),
                opt_view(path),
            ),
            r is Some ==> r->Some_0@.well_formed(),
    {
        let name = match name {
            Some(n) => n,
            None => return None,
        };
        let command_line = match exec {
            Some(e) => e,
            None => return None,
        };
        if short_id.is_empty() || name.as_str().is_empty() {
            return None;
        }
        let mut args = command_tokens(command_line.as_str());
        if args.len() == 0 {
            return None;
        }
        if args[0].as_str().is_empty() {
            return None;
        }
        let ghost toks = strings_view(args@);
        let program = args.remove(0);
        assert(strings_view(args@) =~= toks.drop_first());
        let terminal = match terminal {
            Some(t) => is_true_literal(t.as_str()),
            None => false,
        };
        Some(
            Item::Desktop {
                name,
                filename: short_id.to_owned(),
                terminal,
                program,
                args,
                working_dir: path,
                dir: dir.to_owned(),
            },
        )
    }

    /// Builds a desktop item from a parsed desktop entry whose identifier is
    /// `short_id`.
    pub fn from_entry(short_id: &str, dir: &str, entry: &Entry) -> (r: Option<Item>)
        ensures
            opt_item_view(r) == desktop_item_from_attrs(short_id@, dir@, entry_attrs(*entry)),
            r is Some ==> r->Some_0@.well_formed(),
    {
        let name = entry_attr(entry, "Desktop Entry", "Name");
        let exec = entry_attr(entry, "Desktop Entry", "Exec");
        let terminal = entry_attr(entry, "Desktop Entry", "Terminal");
        let path = entry_attr(entry, "Desktop Entry", "Path");
        Item::from_attributes(short_id, dir, name, exec, terminal, path)
    }

    /// Classifies the file `filename` found in `dir`. `contents` holds the
    /// file's bytes, or `None` where they could not be read; they are only
    /// looked at for a desktop entry file.
    pub fn new(filename: &str, dir: &str, contents: Option<&[u8]>) -> (r: Option<Item>)
        ensures
            opt_item_view(r) == classify(filename@, dir@, opt_bytes_view(contents)),
            r is Some ==> r->Some_0@.well_formed(),
    {
        if is_desktop_file(filename) {
            match contents {
                None => None,
                Some(b) => match parse_entry_bytes(b) {
                    Ok(entry) => {
                        let short = strip_desktop_suffix(filename);
                        Item::from_entry(short.as_str(), dir, &entry)
                    },
                    Err(_) => None,
                },
            }
        } else if filename.is_empty() {
            None
        } else {
            Some(Item::Path { name: filename.to_owned(), dir: dir.to_owned() })
        }
    }

    /// The name shown to the user.
    pub fn name(&self) -> (r: &str)
        ensures
            r@ == self@.display_name(),
    {
        match self {
            Item::Desktop { name, .. } => name.as_str(),
            Item::Path { name, .. } => name.as_str(),
        }
    }

    /// The identifier derived from the file name.
    pub fn short_name(&self) -> (r: &str)
        ensures
            r@ == self@.short_id(),
    {
        match self {
            Item::Desktop { filename, .. } => filename.as_str(),
            Item::Path { name, .. } => name.as_str(),
        }
    }

    /// Whether this is an application described by a desktop entry.
    pub fn is_desktop(&self) -> (r: bool)
        ensures
            r == self@.is_desktop(),
    {
        match self {
            Item::Desktop { .. } => true,
            Item::Path { .. } => false,
        }
    }

    /// The directory the item was found in.
    pub fn dir(&self) -> (r: &str)
        ensures
            r@ == self@.source_dir(),
    {
        match self {
            Item::Desktop { dir, .. } => dir.as_str(),
            Item::Path { dir, .. } => dir.as_str(),
        }
    }

    /// The form shown in a result list: `<name> (<source directory>)`.
    pub fn render(&self) -> (r: String)
        ensures
            r@ == self@.display_name() + " ("@ + self@.source_dir() + ")"@,
    {
        let mut r = self.name().to_owned();
        r.append(" (");
        r.append(self.dir());
        r.append(")");
        r
    }

    /// An equal copy of this item.
    pub fn duplicate(&self) -> (r: Item)
        ensures
            r@ == self@,
    {
        match self {
            Item::Desktop { name, filename, terminal, program, args, working_dir, dir } => {
                let wd = match working_dir {
                    Some(w) => Some(w.clone()),
                    None => None,
                };
                Item::Desktop {
                    name: name.clone(),
                    filename: filename.clone(),
                    terminal: *terminal,
                    program: program.clone(),
                    args: clone_strings(args),
                    working_dir: wd,
                    dir: dir.clone(),
                }
            },
            Item::Path { name, dir } => Item::Path { name: name.clone(), dir: dir.clone() },
        }
    }
}

} // verus!
