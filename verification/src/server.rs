//! The language server's command line and what it advertises.

use vstd::prelude::*;

verus! {

/// How the client keeps the server's copy of a document up to date.
#[derive(Clone, Copy, Debug, PartialEq, Eq, Structural)]
pub enum DocumentSyncKind {
    /// Documents are not synced.
    Disabled,
    /// Every change sends the full text.
    Full,
    /// Changes send only what changed.
    Incremental,
}

/// The capabilities that the server advertises on `initialize`.
#[derive(Clone, Copy, Debug, PartialEq, Eq, Structural)]
pub struct Capabilities {
    pub text_document_sync: DocumentSyncKind,
    pub hover_provider: bool,
}

/// The name the server reports to the client.
pub const SERVER_NAME: &'static str = "genko-ls";

/// Genko's server wants the full text of a document on every change, and
/// answers hover requests.
pub fn initialize_capabilities() -> (capabilities: Capabilities)
    ensures
        capabilities.text_document_sync == DocumentSyncKind::Full,
        capabilities.hover_provider,
{
    Capabilities { text_document_sync: DocumentSyncKind::Full, hover_provider: true }
}

/// The server runs only when its command line is exactly `--stdio`.
pub fn requests_stdio(arguments: &[String]) -> (stdio: bool)
    ensures
        stdio == (arguments@.len() == 1 && arguments@[0]@ == "--stdio"@),
{
    let expected = "--stdio".to_owned();
    arguments.len() == 1 && arguments[0] == expected
}

} // verus!
