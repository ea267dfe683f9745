//! What a node's control interface hands out, and the interface itself.

use crate::text::text_concat;
use crate::views::{option_view, seq_view};
use vstd::prelude::*;

verus! {

/// A registered module: its content identifier and the size of its artifact.
#[derive(Debug, Clone, PartialEq, Eq)]
pub struct ModuleInfo {
    pub id: String,
    pub size_bytes: u64,
}

/// The outcome of a registration: the module, and whether it was new to the node.
#[derive(Debug, Clone, PartialEq, Eq)]
pub struct ModuleRegistration {
    pub module: ModuleInfo,
    pub created: bool,
}

/// A connected peer.
#[derive(Debug, Clone, PartialEq, Eq)]
pub struct PeerInfo {
    pub address: String,
    pub node_id: String,
}

/// One page of a listing. `next_cursor` resumes the listing after the last item, and is absent on
/// the last page.
#[derive(Debug, Clone, PartialEq, Eq)]
pub struct ControlPage<T> {
    pub items: Vec<T>,
    pub next_cursor: Option<Vec<u8>>,
}

/// Why a control operation failed.
#[derive(Debug, Clone, PartialEq, Eq)]
pub enum ControlError {
    InvalidCursor,
    ModuleNotFound,
    KeyNotFound,
    InvalidModule(String),
    ModuleExecutionFailed(String),
    Storage(String),
    Internal(String),
}

/// What a [`ModuleInfo`] stands for.
#[verifier::ext_equal]
pub struct ModuleInfoView {
    pub id: Seq<char>,
    pub size_bytes: u64,
}

/// What a [`ModuleRegistration`] stands for.
#[verifier::ext_equal]
pub struct ModuleRegistrationView {
    pub module: ModuleInfoView,
    pub created: bool,
}

/// What a [`PeerInfo`] stands for.
#[verifier::ext_equal]
pub struct PeerInfoView {
    pub address: Seq<char>,
    pub node_id: Seq<char>,
}

/// What a [`ControlPage`] stands for.
#[verifier::ext_equal]
pub struct ControlPageView<V> {
    pub items: Seq<V>,
    pub next_cursor: Option<Seq<u8>>,
}

/// What a [`ControlError`] stands for.
#[verifier::ext_equal]
pub enum ControlErrorView {
    InvalidCursor,
    ModuleNotFound,
    KeyNotFound,
    InvalidModule(Seq<char>),
    ModuleExecutionFailed(Seq<char>),
    Storage(Seq<char>),
    Internal(Seq<char>),
}

impl View for ModuleInfo {
    type V = ModuleInfoView;

    open spec fn view(&self) -> ModuleInfoView {
        ModuleInfoView { id: self.id@, size_bytes: self.size_bytes }
    }
}

impl View for ModuleRegistration {
    type V = ModuleRegistrationView;

    open spec fn view(&self) -> ModuleRegistrationView {
        ModuleRegistrationView { module: self.module@, created: self.created }
    }
}

impl View for PeerInfo {
    type V = PeerInfoView;

    open spec fn view(&self) -> PeerInfoView {
        PeerInfoView { address: self.address@, node_id: self.node_id@ }
    }
}

impl<T: View> View for ControlPage<T> {
    type V = ControlPageView<T::V>;

    open spec fn view(&self) -> ControlPageView<T::V> {
        ControlPageView {
            items: seq_view(self.items@),
            next_cursor: option_view(self.next_cursor),
        }
    }
}

impl View for ControlError {
    type V = ControlErrorView;

    open spec fn view(&self) -> ControlErrorView {
        match self {
            ControlError::InvalidCursor => ControlErrorView::InvalidCursor,
            ControlError::ModuleNotFound => ControlErrorView::ModuleNotFound,
            ControlError::KeyNotFound => ControlErrorView::KeyNotFound,
            ControlError::InvalidModule(reason) => ControlErrorView::InvalidModule(reason@),
            ControlError::ModuleExecutionFailed(reason) =>
                ControlErrorView::ModuleExecutionFailed(reason@),
            ControlError::Storage(reason) => ControlErrorView::Storage(reason@),
            ControlError::Internal(reason) => ControlErrorView::Internal(reason@),
        }
    }
}

/// What the outcome of a control operation stands for.
pub open spec fn outcome_view<T: View>(outcome: Result<T, ControlError>) -> Result<
    T::V,
    ControlErrorView,
> {
    match outcome {
        Ok(value) => Ok(value@),
        Err(error) => Err(error@),
    }
}

/// What the outcome of a lookup stands for, which may find nothing.
pub open spec fn lookup_view<T: View>(outcome: Result<Option<T>, ControlError>) -> Result<
    Option<T::V>,
    ControlErrorView,
> {
    match outcome {
        Ok(found) => Ok(option_view(found)),
        Err(error) => Err(error@),
    }
}

/// The first `limit` of `rows` as a page. Where rows are left over, the page's cursor is that of
/// its last item.
pub open spec fn page_of<V>(
    rows: Seq<V>,
    limit: nat,
    cursor_of: spec_fn(V) -> Seq<u8>,
) -> ControlPageView<V> {
    if rows.len() > limit {
        ControlPageView {
            items: rows.take(limit as int),
            next_cursor: Some(cursor_of(rows[limit - 1])),
        }
    } else {
        ControlPageView { items: rows, next_cursor: None }
    }
}

impl ControlErrorView {
    /// The error in words.
    pub open spec fn words(self) -> Seq<char> {
        match self {
            ControlErrorView::InvalidCursor => "invalid cursor"@,
            ControlErrorView::ModuleNotFound => "module not found"@,
            ControlErrorView::KeyNotFound => "key not found"@,
            ControlErrorView::InvalidModule(reason) => "invalid module: "@ + reason,
            ControlErrorView::ModuleExecutionFailed(reason) => "module execution failed: "@
                + reason,
            ControlErrorView::Storage(reason) => "storage error: "@ + reason,
            ControlErrorView::Internal(reason) => "internal control error: "@ + reason,
        }
    }
}

impl ControlError {
    /// The error in words.
    pub fn to_string(&self) -> (words: String)
        ensures
            words@ == self@.words(),
    {
        match self {
            ControlError::InvalidCursor => "invalid cursor".to_owned(),
            ControlError::ModuleNotFound => "module not found".to_owned(),
            ControlError::KeyNotFound => "key not found".to_owned(),
            ControlError::InvalidModule(reason) => text_concat("invalid module: ", reason.as_str()),
            ControlError::ModuleExecutionFailed(reason) => text_concat(
                "module execution failed: ",
                reason.as_str(),
            ),
            ControlError::Storage(reason) => text_concat("storage error: ", reason.as_str()),
            ControlError::Internal(reason) => text_concat(
                "internal control error: ",
                reason.as_str(),
            ),
        }
    }
}

/// What a node tells of itself: its modules, peers and application data.
pub trait RuntimeIntrospection: Send + Sync {
    fn list_modules(&self, cursor: Option<Vec<u8>>, limit: usize) -> Result<
        ControlPage<ModuleInfo>,
        ControlError,
    >;

    fn get_module(&self, id: String) -> Result<ModuleInfo, ControlError>;

    fn list_peers(&self, cursor: Option<Vec<u8>>, limit: usize) -> Result<
        ControlPage<PeerInfo>,
        ControlError,
    >;

    fn list_keys(&self, prefix: Vec<u8>, cursor: Option<Vec<u8>>, limit: usize) -> Result<
        ControlPage<Vec<u8>>,
        ControlError,
    >;

    fn get_value(&self, key: Vec<u8>) -> Result<Vec<u8>, ControlError>;

    fn is_healthy(&self) -> bool;

    fn is_ready(&self) -> bool;
}

/// What a node does on request: take, drop and run modules.
pub trait RuntimeManagement: Send + Sync {
    fn register_module(&self, bytes: Vec<u8>) -> Result<ModuleRegistration, ControlError>;

    fn delete_module(&self, id: String) -> Result<(), ControlError>;

    fn run_module(&self, id: String) -> Result<(), ControlError>;
}

/// The whole control interface of a node.
pub trait RuntimeControl: RuntimeIntrospection + RuntimeManagement {

}

impl<T> RuntimeControl for T where T: RuntimeIntrospection + RuntimeManagement {

}

/// The error of a datastore, as a control error.
pub fn storage_error(error: String) -> (control: ControlError)
    ensures
        control@ == ControlErrorView::Storage(error@),
{
    ControlError::Storage(error)
}

} // verus!
