//! Stateful tool-execution core: path resolution and sandboxing, a text
//! editor with bounded per-file undo history, shell-command planning and
//! output handling, and a workflow step/branch tracker.

pub mod error;
pub mod history;
pub mod image_processor;
pub mod lang;
pub mod paths;
pub mod sandbox;
pub mod screen_capture;
pub mod shell;
pub mod text;
pub mod text_editor;
pub mod workflow;

pub use image_processor::ImageProcessor;
pub use screen_capture::ScreenCapture;
pub use shell::{Shell, ShellConfig};
pub use text_editor::TextEditor;
pub use workflow::{Workflow, WorkflowStep};
