//! Where templates live and which file extension marks them.
use vstd::prelude::*;

use crate::text::{trim_start_char, trim_start_matches_char};

verus! {

/// The template directory used when none was set.
pub const DEFAULT_TEMPLATE_DIR: &'static str = "templates";

/// The template file extension used when none was set.
pub const DEFAULT_TEMPLATE_EXTENSION: &'static str = ".html.jinja2";

/// What was set, if anything, for the template directory and extension.
pub struct SettingsView {
    pub template_dir: Option<Seq<char>>,
    pub template_extension: Option<Seq<char>>,
}

/// The template directory and extension; each can be set once.
pub struct Settings {
    template_dir: Option<String>,
    template_extension: Option<String>,
}

pub open spec fn opt_view(o: Option<String>) -> Option<Seq<char>> {
    match o {
        Some(s) => Some(s@),
        None => None,
    }
}

impl View for Settings {
    type V = SettingsView;

    closed spec fn view(&self) -> SettingsView {
        SettingsView {
            template_dir: opt_view(self.template_dir),
            template_extension: opt_view(self.template_extension),
        }
    }
}

/// The extension as stored: the given one without its leading dots, after one dot.
pub open spec fn normalized_extension(extension: Seq<char>) -> Seq<char> {
    seq!['.'] + trim_start_char(extension, '.')
}

impl Settings {
    /// Settings with nothing set.
    pub fn new() -> (r: Settings)
        ensures
            r@.template_dir is None,
            r@.template_extension is None,
    {
        Settings { template_dir: None, template_extension: None }
    }

    /// The template directory: the one set, else [`DEFAULT_TEMPLATE_DIR`].
    pub fn template_dir(&self) -> (r: String)
        ensures
            r@ == match self@.template_dir {
                Some(d) => d,
                None => DEFAULT_TEMPLATE_DIR@,
            },
    {
        match &self.template_dir {
            Some(d) => d.clone(),
            None => DEFAULT_TEMPLATE_DIR.to_owned(),
        }
    }

    /// The template extension: the one set, else [`DEFAULT_TEMPLATE_EXTENSION`].
    pub fn template_extension(&self) -> (r: &str)
        ensures
            r@ == match self@.template_extension {
                Some(e) => e,
                None => DEFAULT_TEMPLATE_EXTENSION@,
            },
    {
        match &self.template_extension {
            Some(e) => e.as_str(),
            None => DEFAULT_TEMPLATE_EXTENSION,
        }
    }
}

/// Sets the template directory. It can be set once: a second call changes
/// nothing and hands `dir` back as the error.
pub fn set_template_dir(settings: &mut Settings, dir: String) -> (r: Result<(), String>)
    ensures
        match old(settings)@.template_dir {
            None => r is Ok && final(settings)@.template_dir == Some(dir@),
            Some(_) => r matches Err(e) && e@ == dir@ && final(settings)@.template_dir
                == old(settings)@.template_dir,
        },
        final(settings)@.template_extension == old(settings)@.template_extension,
{
    if settings.template_dir.is_some() {
        Err(dir)
    } else {
        settings.template_dir = Some(dir);
        Ok(())
    }
}

/// Sets the template file extension, stored with exactly one leading dot
/// whether or not `extension` had any. It can be set once: a second call
/// changes nothing and hands the normalized extension back as the error.
pub fn set_template_file_extension(settings: &mut Settings, extension: &str) -> (r: Result<
    (),
    String,
>)
    ensures
        match old(settings)@.template_extension {
            None => r is Ok && final(settings)@.template_extension == Some(
                normalized_extension(extension@),
            ),
            Some(_) => r matches Err(e) && e@ == normalized_extension(extension@)
                && final(settings)@.template_extension == old(settings)@.template_extension,
        },
        final(settings)@.template_dir == old(settings)@.template_dir,
{
    let bare = trim_start_matches_char(extension, '.');
    let mut normalized = ".".to_owned();
    proof {
        reveal_strlit(".");
    }
    normalized.append(bare);
    if settings.template_extension.is_some() {
        Err(normalized)
    } else {
        settings.template_extension = Some(normalized);
        Ok(())
    }
}

} // verus!
