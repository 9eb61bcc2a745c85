//! The files of the theme editor: the document that was saved or opened, and
//! the package that was installed.

use crate::paths::{add_extension, join_path, joined_path, with_extension};
use crate::settings::theme::{
    copy_text, equal_documents, same_document, DocumentView, ThemeDocument, WallpaperView,
};
use crate::settings::theme_draft::{draft_ok, has_stops, opened, DraftView, ThemeEditorDraft};
use crate::text::opt_view;
use vstd::prelude::*;

verus! {

/// Where a document is saved: with the extension of documents where the path
/// has none.
pub fn theme_editor_toml_path(path: &str) -> (r: String)
    ensures
        r@ == with_extension(path@, "toml"@),
{
    add_extension(path, "toml")
}

/// Where a package is saved: with the extension of packages where the path has
/// none.
pub fn theme_package_path(path: &str) -> (r: String)
    ensures
        r@ == with_extension(path@, "fdtheme"@),
{
    add_extension(path, "fdtheme")
}

/// The directory of installed themes, below the directory for data or else the
/// present one.
pub fn installed_themes_root(data_dir: &Option<String>) -> (r: String)
    ensures
        r@ == joined_path(
            joined_path(
                match opt_view(*data_dir) {
                    Some(dir) => dir,
                    None => "."@,
                },
                "focaldesk"@,
            ),
            "themes"@,
        ),
{
    let base = match data_dir {
        Some(dir) => join_path(dir.as_str(), "focaldesk"),
        None => join_path(".", "focaldesk"),
    };
    join_path(base.as_str(), "themes")
}

/// Where the document is, and whether it has changes that are not there.
pub open spec fn path_label(path: Option<Seq<char>>, dirty: bool) -> Seq<char> {
    let location = match path {
        Some(p) => p,
        None => "Not saved yet"@,
    };
    if dirty {
        location + " · Unsaved changes"@
    } else {
        location
    }
}

/// Where the document is, and whether it has changes that are not there.
pub fn theme_editor_path_label(path: &Option<String>, dirty: bool) -> (r: String)
    ensures
        r@ == path_label(opt_view(*path), dirty),
{
    let location = match path {
        Some(p) => p.clone(),
        None => "Not saved yet".to_owned(),
    };
    if dirty {
        location.concat(" · Unsaved changes")
    } else {
        location
    }
}

/// The files of the editor.
#[derive(Debug)]
pub struct ThemeFiles {
    /// The document as it was last saved or opened.
    pub saved: ThemeDocument,
    /// Where it was saved or opened.
    pub path: Option<String>,
    /// The name of the installed package that it is of.
    pub installed: Option<String>,
}

/// The value of [`ThemeFiles`].
pub ghost struct FilesView {
    pub saved: DocumentView,
    pub path: Option<Seq<char>>,
    pub installed: Option<Seq<char>>,
}

impl View for ThemeFiles {
    type V = FilesView;

    open spec fn view(&self) -> FilesView {
        FilesView {
            saved: self.saved@,
            path: opt_view(self.path),
            installed: opt_view(self.installed),
        }
    }
}

/// What a document that could not be read, or was read and not accepted, fails
/// with.
pub open spec fn loading_fault(document: Result<ThemeDocument, String>, validated: Result<(), String>) -> Option<
    Seq<char>,
> {
    match document {
        Err(e) => Some(e@),
        Ok(doc) => match validated {
            Err(e) => Some(e@),
            Ok(_) => match opened(doc@) {
                Err(e) => Some(e),
                Ok(_) => None,
            },
        },
    }
}

/// A document that was read and is valid has stops where it is a gradient.
pub open spec fn loads(document: Result<ThemeDocument, String>, validated: Result<(), String>) -> bool {
    document is Ok && validated is Ok ==> has_stops(document->Ok_0@.intent.paint)
}

/// The files and the draft after a document was opened in their place.
pub open spec fn after_loading(
    path: Seq<char>,
    installed: Option<Seq<char>>,
    document: DocumentView,
) -> (FilesView, DraftView) {
    (FilesView { saved: document, path: Some(path), installed }, opened(document)->Ok_0)
}

/// What happens to the files of the editor, and whether it was done.
pub ghost enum FilesEvent {
    Saved { document: DocumentView, path: Seq<char>, done: bool },
    /// A document was opened; `package` is the package that it was imported with.
    Opened {
        document: DocumentView,
        path: Seq<char>,
        package: Option<Seq<char>>,
        done: bool,
    },
    Uninstalled { done: bool },
}

/// The files after it.
pub open spec fn files_after(f: FilesView, e: FilesEvent) -> FilesView {
    match e {
        FilesEvent::Saved { document, path, done } => if done {
            FilesView { saved: document, path: Some(with_extension(path, "toml"@)), ..f }
        } else {
            f
        },
        FilesEvent::Opened { document, path, package, done } => if done {
            FilesView { saved: document, path: Some(path), installed: package }
        } else {
            f
        },
        FilesEvent::Uninstalled { done } => if done {
            FilesView { path: None, installed: None, ..f }
        } else {
            f
        },
    }
}

impl ThemeFiles {
    /// The files of a new draft.
    pub fn new(document: ThemeDocument) -> (r: ThemeFiles)
        ensures
            r@ == (FilesView { saved: document@, path: None, installed: None }),
    {
        ThemeFiles { saved: document, path: None, installed: None }
    }

    /// Whether a document has changes that are not saved: whether it can be
    /// saved, and reverted.
    pub fn is_dirty(&self, document: &ThemeDocument) -> (r: bool)
        ensures
            r == !equal_documents(document@, self@.saved),
    {
        !same_document(document, &self.saved)
    }

    /// Where a document is saved that is not given a place: where it was last.
    pub fn save_target(&self) -> (r: Option<String>)
        ensures
            opt_view(r) == self@.path,
    {
        copy_text(&self.path)
    }

    /// A document was written, or not. Returns what is said about it.
    pub fn on_saved(&mut self, document: ThemeDocument, path: &str, result: &Result<(), String>) -> (r:
        String)
        ensures
            final(self)@ == files_after(
                old(self)@,
                (FilesEvent::Saved { document: document@, path: path@, done: *result is Ok }),
            ),
            match *result {
                Ok(_) => final(self)@ == (FilesView {
                    saved: document@,
                    path: Some(with_extension(path@, "toml"@)),
                    ..old(self)@
                }) && r@ == "Theme saved"@,
                Err(e) => final(self)@ == old(self)@ && r@ == "Save failed: "@ + e@,
            },
    {
        match result {
            Ok(_) => {
                self.saved = document;
                self.path = Some(theme_editor_toml_path(path));
                "Theme saved".to_owned()
            },
            Err(e) => {
                let mut out = "Save failed: ".to_owned();
                out.append(e.as_str());
                out
            },
        }
    }

    /// Whether another document can be opened; what is said where it cannot.
    pub fn may_open(&self, document: &ThemeDocument) -> (r: Option<String>)
        ensures
            opt_view(r) == if equal_documents(document@, self@.saved) {
                None
            } else {
                Some("Save or revert unsaved changes before opening a theme"@)
            },
    {
        if self.is_dirty(document) {
            Some("Save or revert unsaved changes before opening a theme".to_owned())
        } else {
            None
        }
    }

    /// Whether a package can be imported; what is said where it cannot.
    pub fn may_import(&self, document: &ThemeDocument) -> (r: Option<String>)
        ensures
            opt_view(r) == if equal_documents(document@, self@.saved) {
                None
            } else {
                Some("Save or revert unsaved changes before importing"@)
            },
    {
        if self.is_dirty(document) {
            Some("Save or revert unsaved changes before importing".to_owned())
        } else {
            None
        }
    }

    fn load(
        &mut self,
        draft: &mut ThemeEditorDraft,
        path: String,
        installed: Option<String>,
        document: Result<ThemeDocument, String>,
        validated: &Result<(), String>,
    ) -> (r: Option<String>)
        requires
            loads(document, *validated),
            draft_ok(old(draft)@),
        ensures
            opt_view(r) == loading_fault(document, *validated),
            match r {
                Some(_) => final(self)@ == old(self)@ && final(draft)@ == old(draft)@,
                None => (final(self)@, final(draft)@) == after_loading(
                    path@,
                    opt_view(installed),
                    document->Ok_0@,
                ),
            },
            draft_ok(final(draft)@),
    {
        match document {
            Err(e) => Some(e),
            Ok(doc) => match ThemeEditorDraft::from_document(&doc, validated) {
                Err(e) => Some(e),
                Ok(loaded) => {
                    *draft = loaded;
                    self.saved = doc;
                    self.path = Some(path);
                    self.installed = installed;
                    None
                },
            },
        }
    }

    /// A document was read, or not: the draft becomes one of it. Returns what is
    /// said about it. The draft's picker is yet to be put at its colour.
    pub fn on_opened(
        &mut self,
        draft: &mut ThemeEditorDraft,
        path: String,
        document: Result<ThemeDocument, String>,
        validated: &Result<(), String>,
    ) -> (r: String)
        requires
            loads(document, *validated),
            draft_ok(old(draft)@),
        ensures
            final(self)@ == files_after(
                old(self)@,
                (FilesEvent::Opened {
                    document: document->Ok_0@,
                    path: path@,
                    package: None,
                    done: loading_fault(document, *validated) is None,
                }),
            ),
            match loading_fault(document, *validated) {
                Some(e) => final(self)@ == old(self)@ && final(draft)@ == old(draft)@ && r@
                    == "Open failed: "@ + e,
                None => (final(self)@, final(draft)@) == after_loading(
                    path@,
                    None,
                    document->Ok_0@,
                ) && r@ == "Theme loaded"@,
            },
            draft_ok(final(draft)@),
    {
        match self.load(draft, path, None, document, validated) {
            Some(e) => {
                let mut out = "Open failed: ".to_owned();
                out.append(e.as_str());
                out
            },
            None => "Theme loaded".to_owned(),
        }
    }

    /// A package was installed and its document read, or not: the draft becomes
    /// one of it. Returns what is said about it.
    pub fn on_imported(
        &mut self,
        draft: &mut ThemeEditorDraft,
        slug: String,
        path: String,
        document: Result<ThemeDocument, String>,
        validated: &Result<(), String>,
    ) -> (r: String)
        requires
            loads(document, *validated),
            draft_ok(old(draft)@),
        ensures
            final(self)@ == files_after(
                old(self)@,
                (FilesEvent::Opened {
                    document: document->Ok_0@,
                    path: path@,
                    package: Some(slug@),
                    done: loading_fault(document, *validated) is None,
                }),
            ),
            match loading_fault(document, *validated) {
                Some(e) => final(self)@ == old(self)@ && final(draft)@ == old(draft)@ && r@
                    == "Import failed: "@ + e,
                None => (final(self)@, final(draft)@) == after_loading(
                    path@,
                    Some(slug@),
                    document->Ok_0@,
                ) && r@ == "Installed: "@ + slug@,
            },
            draft_ok(final(draft)@),
    {
        let mut done = "Installed: ".to_owned();
        done.append(slug.as_str());
        match self.load(draft, path, Some(slug), document, validated) {
            Some(e) => {
                let mut out = "Import failed: ".to_owned();
                out.append(e.as_str());
                out
            },
            None => done,
        }
    }

    /// A package was written, or not. Returns what is said about it.
    pub fn export_message(result: &Result<(), String>) -> (r: String)
        ensures
            r@ == match *result {
                Ok(_) => "Package exported"@,
                Err(e) => "Export failed: "@ + e@,
            },
    {
        match result {
            Ok(_) => "Package exported".to_owned(),
            Err(e) => {
                let mut out = "Export failed: ".to_owned();
                out.append(e.as_str());
                out
            },
        }
    }

    /// The package that can be uninstalled.
    pub fn uninstall_target(&self) -> (r: Option<String>)
        ensures
            opt_view(r) == self@.installed,
    {
        copy_text(&self.installed)
    }

    /// A package was uninstalled, or not: the draft stays, without the wallpaper
    /// that went with the package. Returns what is said about it.
    pub fn on_uninstalled(&mut self, draft: &mut ThemeEditorDraft, result: &Result<(), String>) -> (r:
        String)
        ensures
            final(self)@ == files_after(
                old(self)@,
                (FilesEvent::Uninstalled { done: *result is Ok }),
            ),
            match *result {
                Ok(_) => final(self)@ == (FilesView { path: None, installed: None, ..old(self)@ })
                    && final(draft)@ == (DraftView {
                    wallpaper: WallpaperView { path: None, ..old(draft)@.wallpaper },
                    ..old(draft)@
                }) && r@ == "Theme uninstalled; editor draft retained"@,
                Err(e) => final(self)@ == old(self)@ && final(draft)@ == old(draft)@ && r@
                    == "Uninstall failed: "@ + e@,
            },
    {
        match result {
            Ok(_) => {
                self.installed = None;
                self.path = None;
                draft.wallpaper.path = None;
                "Theme uninstalled; editor draft retained".to_owned()
            },
            Err(e) => {
                let mut out = "Uninstall failed: ".to_owned();
                out.append(e.as_str());
                out
            },
        }
    }

    /// The draft becomes one of the document as it was saved. `validated` is
    /// what is wrong with that document. Returns what is said about it.
    pub fn revert(&self, draft: &mut ThemeEditorDraft, validated: &Result<(), String>) -> (r:
        String)
        requires
            validated is Ok ==> has_stops(self@.saved.intent.paint),
            draft_ok(old(draft)@),
        ensures
            match *validated {
                Err(e) => final(draft)@ == old(draft)@ && r@ == "Revert failed: "@ + e@,
                Ok(_) => match opened(self@.saved) {
                    Ok(d) => final(draft)@ == d && r@ == "Unsaved changes reverted"@,
                    Err(e) => final(draft)@ == old(draft)@ && r@ == "Revert failed: "@ + e,
                },
            },
            draft_ok(final(draft)@),
    {
        match ThemeEditorDraft::from_document(&self.saved, validated) {
            Ok(restored) => {
                *draft = restored;
                "Unsaved changes reverted".to_owned()
            },
            Err(e) => {
                let mut out = "Revert failed: ".to_owned();
                out.append(e.as_str());
                out
            },
        }
    }
}

/// What was saved or opened is what the draft is held against from then on, and
/// where it will be saved next; what could not be done changes nothing.
pub proof fn law_files(
    f: FilesView,
    document: DocumentView,
    path: Seq<char>,
    package: Option<Seq<char>>,
)
    ensures
        files_after(f, FilesEvent::Saved { document, path, done: false }) == f,
        files_after(f, FilesEvent::Opened { document, path, package, done: false }) == f,
        files_after(f, FilesEvent::Uninstalled { done: false }) == f,
        ({
            let after = files_after(f, FilesEvent::Saved { document, path, done: true });
            &&& after.saved == document && after.installed == f.installed
            &&& after.path == Some(with_extension(path, "toml"@))
        }),
        ({
            let after = files_after(f, FilesEvent::Opened { document, path, package, done: true });
            &&& after.saved == document && after.path == Some(path) && after.installed == package
        }),
        ({
            let after = files_after(f, FilesEvent::Uninstalled { done: true });
            &&& after.saved == f.saved && after.path is None && after.installed is None
        }),
{
}

/// The title of the editor starts with the place of the document, and is longer
/// exactly while there is something to save.
pub proof fn law_path_label(path: Option<Seq<char>>, dirty: bool)
    ensures
        path is Some && !dirty ==> path_label(path, dirty) == path->Some_0,
        path is None && !dirty ==> path_label(path, dirty) == "Not saved yet"@,
        path_label(path, true).len() > path_label(path, false).len(),
        path_label(path, true).take(path_label(path, false).len() as int) == path_label(
            path,
            false,
        ),
{
    reveal_strlit(" · Unsaved changes");
    assert(path_label(path, true).take(path_label(path, false).len() as int) =~= path_label(
        path,
        false,
    ));
}

} // verus!
