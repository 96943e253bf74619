//! What the runtime knows of an adapter and of the messages it carries.

use serde_json::Value;
use vstd::prelude::*;

use crate::text;

verus! {

/// What an attachment is.
#[derive(Debug, Clone, Copy, PartialEq, Eq, Structural)]
pub enum AdapterAttachmentKind {
    Image,
    Video,
    Audio,
    Document,
}

/// A file that travels with a message, named in whichever ways the platform
/// or the agent can reach it.
#[derive(Debug)]
pub struct AdapterAttachment {
    pub kind: AdapterAttachmentKind,
    pub path: Option<String>,
    pub url: Option<String>,
    pub data: Option<String>,
    pub sandbox_path: Option<String>,
    pub mime_type: Option<String>,
    pub file_name: Option<String>,
}

/// The contents of an [`AdapterAttachment`].
#[verifier::ext_equal]
pub struct AdapterAttachmentView {
    pub kind: AdapterAttachmentKind,
    pub path: Option<Seq<char>>,
    pub url: Option<Seq<char>>,
    pub data: Option<Seq<char>>,
    pub sandbox_path: Option<Seq<char>>,
    pub mime_type: Option<Seq<char>>,
    pub file_name: Option<Seq<char>>,
}

impl View for AdapterAttachment {
    type V = AdapterAttachmentView;

    open spec fn view(&self) -> AdapterAttachmentView {
        AdapterAttachmentView {
            kind: self.kind,
            path: text::opt_view(self.path),
            url: text::opt_view(self.url),
            data: text::opt_view(self.data),
            sandbox_path: text::opt_view(self.sandbox_path),
            mime_type: text::opt_view(self.mime_type),
            file_name: text::opt_view(self.file_name),
        }
    }
}

impl Clone for AdapterAttachment {
    fn clone(&self) -> (copy: Self)
        ensures
            copy@ == self@,
    {
        AdapterAttachment {
            kind: self.kind,
            path: text::opt_copy(&self.path),
            url: text::opt_copy(&self.url),
            data: text::opt_copy(&self.data),
            sandbox_path: text::opt_copy(&self.sandbox_path),
            mime_type: text::opt_copy(&self.mime_type),
            file_name: text::opt_copy(&self.file_name),
        }
    }
}

/// The contents of each attachment.
pub open spec fn attachment_views(attachments: Seq<AdapterAttachment>) -> Seq<
    AdapterAttachmentView,
> {
    attachments.map_values(|attachment: AdapterAttachment| attachment@)
}

/// An owned copy of a run of attachments.
pub fn copy_attachments(attachments: &[AdapterAttachment]) -> (copies: Vec<AdapterAttachment>)
    ensures
        attachment_views(copies@) == attachment_views(attachments@),
{
    let mut copies: Vec<AdapterAttachment> = Vec::new();
    let mut i: usize = 0;
    while i < attachments.len()
        invariant
            i <= attachments.len(),
            copies.len() == i,
            forall|j: int| 0 <= j < i ==> (#[trigger] copies@[j])@ == attachments@[j]@,
        decreases attachments.len() - i,
    {
        copies.push(attachments[i].clone());
        i += 1;
    }
    assert(attachment_views(copies@) =~= attachment_views(attachments@));
    copies
}

/// An environment variable of a worker, filled from a stored secret.
#[derive(Debug)]
pub struct AdapterSecretEnv {
    /// The variable's name.
    pub env: String,
    /// The secret's id, or its name.
    pub secret_id: String,
}

/// How an adapter's worker is started and behaves.
#[derive(Debug)]
pub struct AdapterConfig {
    /// The platform: `slack`, `discord` and so on.
    pub adapter_type: String,
    pub worker_command: Vec<String>,
    /// Platform-specific settings.
    pub initialization: Value,
    pub state_dir: Option<String>,
    pub secret_env: Vec<AdapterSecretEnv>,
}

/// A configured adapter of one conversation.
#[derive(Debug)]
pub struct AdapterRecord {
    pub id: String,
    pub agent_id: String,
    pub conversation_id: String,
    pub name: String,
    pub enabled: bool,
    pub config: AdapterConfig,
}

} // verus!
