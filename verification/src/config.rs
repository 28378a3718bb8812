//! The configuration model the engine consumes: filetypes, handlers,
//! filters and scheme handlers, as plain values.  The caller reads and
//! decodes the configuration file; `parse_config` normalizes the decoded
//! value before the lookup tables are built from it.

use vstd::prelude::*;
use crate::text::lower_of;
use crate::text::lowercase;

verus! {

/// A named bundle of extensions and MIME types.
#[derive(Debug)]
pub struct Filetype {
    pub extensions: Vec<String>,
    pub mimes: Vec<String>,
}

pub ghost struct FiletypeV {
    pub extensions: Seq<Seq<char>>,
    pub mimes: Seq<Seq<char>>,
}

impl View for Filetype {
    type V = FiletypeV;

    open spec fn view(&self) -> FiletypeV {
        FiletypeV { extensions: self.extensions.deep_view(), mimes: self.mimes.deep_view() }
    }
}

/// A terminal handler: the end of a dispatch chain.
#[derive(Debug, PartialEq, Eq)]
pub struct FileHandler {
    pub command: String,
    pub wait: bool,
    pub shell: bool,
    pub no_pipe: bool,
    pub stdin_arg: Option<String>,
}

pub ghost struct FileHandlerV {
    pub command: Seq<char>,
    pub wait: bool,
    pub shell: bool,
    pub no_pipe: bool,
    pub stdin_arg: Option<Seq<char>>,
}

impl View for FileHandler {
    type V = FileHandlerV;

    open spec fn view(&self) -> FileHandlerV {
        FileHandlerV {
            command: self.command@,
            wait: self.wait,
            shell: self.shell,
            no_pipe: self.no_pipe,
            stdin_arg: self.stdin_arg.deep_view(),
        }
    }
}

impl Clone for FileHandler {
    fn clone(&self) -> (r: Self)
        ensures
            r@ == self@,
    {
        FileHandler {
            command: self.command.clone(),
            wait: self.wait,
            shell: self.shell,
            no_pipe: self.no_pipe,
            stdin_arg: clone_opt_string(&self.stdin_arg),
        }
    }
}

/// The `wait` flag a handler gets when the configuration names none.
pub fn default_file_handler_wait() -> (r: bool)
    ensures
        r,
{
    true
}

/// A filter: a processor whose output is dispatched again.
#[derive(Debug, PartialEq, Eq)]
pub struct FileFilter {
    pub command: String,
    pub shell: bool,
    pub no_pipe: bool,
    pub stdin_arg: Option<String>,
}

pub ghost struct FileFilterV {
    pub command: Seq<char>,
    pub shell: bool,
    pub no_pipe: bool,
    pub stdin_arg: Option<Seq<char>>,
}

impl View for FileFilter {
    type V = FileFilterV;

    open spec fn view(&self) -> FileFilterV {
        FileFilterV {
            command: self.command@,
            shell: self.shell,
            no_pipe: self.no_pipe,
            stdin_arg: self.stdin_arg.deep_view(),
        }
    }
}

impl Clone for FileFilter {
    fn clone(&self) -> (r: Self)
        ensures
            r@ == self@,
    {
        FileFilter {
            command: self.command.clone(),
            shell: self.shell,
            no_pipe: self.no_pipe,
            stdin_arg: clone_opt_string(&self.stdin_arg),
        }
    }
}

/// A handler for a URL scheme.
#[derive(Debug, PartialEq, Eq)]
pub struct SchemeHandler {
    pub command: String,
    pub shell: bool,
}

pub ghost struct SchemeHandlerV {
    pub command: Seq<char>,
    pub shell: bool,
}

impl View for SchemeHandler {
    type V = SchemeHandlerV;

    open spec fn view(&self) -> SchemeHandlerV {
        SchemeHandlerV { command: self.command@, shell: self.shell }
    }
}

impl Clone for SchemeHandler {
    fn clone(&self) -> (r: Self)
        ensures
            r@ == self@,
    {
        SchemeHandler { command: self.command.clone(), shell: self.shell }
    }
}

fn clone_opt_string(o: &Option<String>) -> (r: Option<String>)
    ensures
        r.deep_view() == o.deep_view(),
{
    match o {
        Some(s) => Some(s.clone()),
        None => None,
    }
}

/// The whole configuration: filetypes, one handler table per mode, the
/// two mandatory defaults (edit reuses open's default), filters, and
/// scheme handlers.  Tables are association lists in configuration
/// order; a later entry for the same name wins.
#[derive(Debug)]
pub struct Config {
    pub filetype: Vec<(String, Filetype)>,
    pub handler_preview: Vec<(String, FileHandler)>,
    pub default_handler_preview: FileHandler,
    pub handler_open: Vec<(String, FileHandler)>,
    pub default_handler_open: FileHandler,
    pub handler_edit: Vec<(String, FileHandler)>,
    pub filter: Vec<(String, FileFilter)>,
    pub handler_scheme: Vec<(String, SchemeHandler)>,
}

/// The view of an association list of named configuration records.
pub open spec fn entries_view<T: View>(entries: Seq<(String, T)>) -> Seq<(Seq<char>, T::V)> {
    entries.map_values(|p: (String, T)| (p.0@, p.1@))
}

pub ghost struct ConfigV {
    pub filetype: Seq<(Seq<char>, FiletypeV)>,
    pub handler_preview: Seq<(Seq<char>, FileHandlerV)>,
    pub default_handler_preview: FileHandlerV,
    pub handler_open: Seq<(Seq<char>, FileHandlerV)>,
    pub default_handler_open: FileHandlerV,
    pub handler_edit: Seq<(Seq<char>, FileHandlerV)>,
    pub filter: Seq<(Seq<char>, FileFilterV)>,
    pub handler_scheme: Seq<(Seq<char>, SchemeHandlerV)>,
}

impl View for Config {
    type V = ConfigV;

    open spec fn view(&self) -> ConfigV {
        ConfigV {
            filetype: entries_view(self.filetype@),
            handler_preview: entries_view(self.handler_preview@),
            default_handler_preview: self.default_handler_preview@,
            handler_open: entries_view(self.handler_open@),
            default_handler_open: self.default_handler_open@,
            handler_edit: entries_view(self.handler_edit@),
            filter: entries_view(self.filter@),
            handler_scheme: entries_view(self.handler_scheme@),
        }
    }
}

/// Normalize a decoded configuration: every filetype extension is
/// lower-cased; everything else is kept as it is.
pub fn parse_config(cfg: Config) -> (r: Config)
    ensures
        r.filetype@.len() == cfg.filetype@.len(),
        forall|i: int|
            0 <= i < cfg.filetype@.len() ==> {
                &&& (#[trigger] r.filetype@[i]).0@ == cfg.filetype@[i].0@
                &&& r.filetype@[i].1@.mimes == cfg.filetype@[i].1@.mimes
                &&& r.filetype@[i].1@.extensions == cfg.filetype@[i].1@.extensions.map_values(
                    |e: Seq<char>| lower_of(e),
                )
            },
        r.handler_preview == cfg.handler_preview,
        r.default_handler_preview == cfg.default_handler_preview,
        r.handler_open == cfg.handler_open,
        r.default_handler_open == cfg.default_handler_open,
        r.handler_edit == cfg.handler_edit,
        r.filter == cfg.filter,
        r.handler_scheme == cfg.handler_scheme,
{
    let Config {
        filetype,
        handler_preview,
        default_handler_preview,
        handler_open,
        default_handler_open,
        handler_edit,
        filter,
        handler_scheme,
    } = cfg;
    let n = filetype.len();
    let mut new_filetype: Vec<(String, Filetype)> = Vec::new();
    let mut i: usize = 0;
    while i < n
        invariant
            i <= n,
            n == filetype@.len(),
            new_filetype@.len() == i,
            forall|k: int|
                0 <= k < i ==> {
                    &&& (#[trigger] new_filetype@[k]).0@ == filetype@[k].0@
                    &&& new_filetype@[k].1@.mimes == filetype@[k].1@.mimes
                    &&& new_filetype@[k].1@.extensions == filetype@[k].1@.extensions.map_values(
                        |e: Seq<char>| lower_of(e),
                    )
                },
        decreases n - i,
    {
        let name = filetype[i].0.clone();
        let m = filetype[i].1.extensions.len();
        let mut exts: Vec<String> = Vec::new();
        let mut j: usize = 0;
        while j < m
            invariant
                j <= m,
                i < n,
                n == filetype@.len(),
                m == filetype@[i as int].1.extensions@.len(),
                exts@.len() == j,
                forall|k: int|
                    0 <= k < j ==> (#[trigger] exts@[k])@ == lower_of(
                        filetype@[i as int].1.extensions@[k]@,
                    ),
            decreases m - j,
        {
            exts.push(lowercase(filetype[i].1.extensions[j].as_str()));
            j = j + 1;
        }
        let mm = filetype[i].1.mimes.len();
        let mut mimes: Vec<String> = Vec::new();
        let mut j2: usize = 0;
        while j2 < mm
            invariant
                j2 <= mm,
                i < n,
                n == filetype@.len(),
                mm == filetype@[i as int].1.mimes@.len(),
                mimes@.len() == j2,
                forall|k: int|
                    0 <= k < j2 ==> (#[trigger] mimes@[k])@ == filetype@[i as int].1.mimes@[k]@,
            decreases mm - j2,
        {
            mimes.push(filetype[i].1.mimes[j2].clone());
            j2 = j2 + 1;
        }
        let ft = Filetype { extensions: exts, mimes };
        proof {
            assert(ft@.extensions =~= filetype@[i as int].1@.extensions.map_values(
                |e: Seq<char>| lower_of(e),
            ));
            assert(ft@.mimes =~= filetype@[i as int].1@.mimes);
        }
        new_filetype.push((name, ft));
        i = i + 1;
    }
    Config {
        filetype: new_filetype,
        handler_preview,
        default_handler_preview,
        handler_open,
        default_handler_open,
        handler_edit,
        filter,
        handler_scheme,
    }
}

} // verus!
