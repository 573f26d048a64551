//! The two persisted documents: the user's settings and the user's templates.

use vstd::prelude::*;
use crate::text::text_of;

verus! {

/// A floating-point number, carried as its IEEE 754 binary64 bit pattern.
///
/// This crate stores and returns such numbers and never computes with them.
#[derive(Debug, Clone, Copy, PartialEq, Eq)]
pub struct Float64Bits {
    /// The sixty-four bits of the number.
    pub bits: u64,
}

/// Size and position of the editor's small window.
#[derive(Debug, Clone, PartialEq, Eq)]
pub struct MiniModeSettings {
    pub width: Float64Bits,
    pub height: Float64Bits,
    /// Where the window's left edge was, if it was ever moved.
    pub position_x: Option<Float64Bits>,
    /// Where the window's top edge was, if it was ever moved.
    pub position_y: Option<Float64Bits>,
}

/// What the editor remembers between runs. Every field may be absent.
#[derive(Debug, Clone, PartialEq, Eq)]
pub struct Settings {
    /// The directory the user works in.
    pub workspace_path: Option<String>,
    /// The layout of the workspace: `jasblog` or `docs`.
    pub workspace_type: Option<String>,
    /// The file that was open when the editor last closed.
    pub last_opened_file: Option<String>,
    pub mini_mode_settings: Option<MiniModeSettings>,
    /// The colour scheme: `light`, `dark` or `system`.
    pub theme: Option<String>,
}

/// A template that the user defined.
///
/// Identifiers are assigned by the caller; nothing here asks that they differ
/// from one another.
#[derive(Debug, Clone, PartialEq, Eq)]
pub struct UserTemplate {
    pub id: String,
    pub name: String,
    pub description: Option<String>,
    pub template_type: String,
    pub content: String,
    /// When the template was made, in the caller's own notation.
    pub created_at: String,
    /// When the template was last changed, in the caller's own notation.
    pub updated_at: String,
}

/// Which of the two documents is meant.
#[derive(Debug, Clone, Copy, PartialEq, Eq)]
pub enum DocumentKind {
    Settings,
    Templates,
}

/// A document as a whole: the unit that is loaded and saved.
#[derive(Debug, Clone, PartialEq, Eq)]
pub enum Document {
    Settings(Settings),
    /// The templates, in the user's order.
    Templates(Vec<UserTemplate>),
}

/// Settings as a mathematical value.
pub struct SettingsContent {
    pub workspace_path: Option<Seq<char>>,
    pub workspace_type: Option<Seq<char>>,
    pub last_opened_file: Option<Seq<char>>,
    pub mini_mode_settings: Option<MiniModeSettings>,
    pub theme: Option<Seq<char>>,
}

impl SettingsContent {
    /// Settings with every field absent.
    pub open spec fn blank() -> SettingsContent {
        SettingsContent {
            workspace_path: None,
            workspace_type: None,
            last_opened_file: None,
            mini_mode_settings: None,
            theme: None,
        }
    }

    /// Whether every field is absent.
    pub open spec fn is_blank(self) -> bool {
        &&& self.workspace_path is None
        &&& self.workspace_type is None
        &&& self.last_opened_file is None
        &&& self.mini_mode_settings is None
        &&& self.theme is None
    }
}

impl View for Settings {
    type V = SettingsContent;

    open spec fn view(&self) -> SettingsContent {
        SettingsContent {
            workspace_path: text_of(self.workspace_path),
            workspace_type: text_of(self.workspace_type),
            last_opened_file: text_of(self.last_opened_file),
            mini_mode_settings: self.mini_mode_settings,
            theme: text_of(self.theme),
        }
    }
}

impl Default for Settings {
    /// Settings with every field absent.
    fn default() -> (settings: Settings)
        ensures
            settings@ == SettingsContent::blank(),
    {
        Settings {
            workspace_path: None,
            workspace_type: None,
            last_opened_file: None,
            mini_mode_settings: None,
            theme: None,
        }
    }
}

/// A template as a mathematical value.
pub struct TemplateContent {
    pub id: Seq<char>,
    pub name: Seq<char>,
    pub description: Option<Seq<char>>,
    pub template_type: Seq<char>,
    pub content: Seq<char>,
    pub created_at: Seq<char>,
    pub updated_at: Seq<char>,
}

impl View for UserTemplate {
    type V = TemplateContent;

    open spec fn view(&self) -> TemplateContent {
        TemplateContent {
            id: self.id@,
            name: self.name@,
            description: text_of(self.description),
            template_type: self.template_type@,
            content: self.content@,
            created_at: self.created_at@,
            updated_at: self.updated_at@,
        }
    }
}

/// What a document holds, as a mathematical value.
pub enum Content {
    Settings(SettingsContent),
    /// The templates, in the user's order.
    Templates(Seq<TemplateContent>),
}

impl Content {
    /// Which document this is the content of.
    pub open spec fn kind(self) -> DocumentKind {
        match self {
            Content::Settings(_) => DocumentKind::Settings,
            Content::Templates(_) => DocumentKind::Templates,
        }
    }

    /// Whether this is what a document holds before it was ever saved:
    /// settings with every field absent, or no templates at all.
    pub open spec fn is_blank(self) -> bool {
        match self {
            Content::Settings(settings) => settings.is_blank(),
            Content::Templates(templates) => templates.len() == 0,
        }
    }

    /// What the document of the given kind holds before it was ever saved.
    pub open spec fn blank(kind: DocumentKind) -> Content {
        match kind {
            DocumentKind::Settings => Content::Settings(SettingsContent::blank()),
            DocumentKind::Templates => Content::Templates(Seq::empty()),
        }
    }
}

impl View for Document {
    type V = Content;

    open spec fn view(&self) -> Content {
        match *self {
            Document::Settings(settings) => Content::Settings(settings@),
            Document::Templates(templates) => Content::Templates(
                templates@.map_values(|template: UserTemplate| template@),
            ),
        }
    }
}

impl Document {
    /// Which document this is.
    pub open spec fn kind(self) -> DocumentKind {
        self@.kind()
    }

    /// Tells which document this is.
    pub fn kind_of(&self) -> (kind: DocumentKind)
        ensures
            kind == self.kind(),
    {
        match self {
            Document::Settings(_) => DocumentKind::Settings,
            Document::Templates(_) => DocumentKind::Templates,
        }
    }

    /// The document of the given kind as it is before it was ever saved.
    pub fn blank(kind: DocumentKind) -> (document: Document)
        ensures
            document@ == Content::blank(kind),
    {
        match kind {
            DocumentKind::Settings => Document::Settings(Settings::default()),
            DocumentKind::Templates => {
                let templates: Vec<UserTemplate> = Vec::new();
                assert(templates@.map_values(|template: UserTemplate| template@) =~= Seq::empty());
                Document::Templates(templates)
            },
        }
    }
}

} // verus!
