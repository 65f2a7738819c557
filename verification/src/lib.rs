//! Turns a Swagger 2.0 document into the files of a serverless project: a
//! function manifest, handler and test stubs, documentation fragments, a
//! file on the models and a file on the API.
//!
//! The library computes; it never touches the file system. A run fills a
//! [`plan::Plan`] with the writes that make up the project, in their order,
//! and whoever owns the output directory carries them out.
//!
//! - [`params`]: the arguments of a run and the runtime they select.
//! - [`template`]: the store of named templates.
//! - [`yaml`], [`node`]: reading and writing YAML, and the document tree.
//! - [`name`]: the name of the function that serves an operation.
//! - [`refs`]: references between models, rewritten into placeholders.
//! - [`walk`]: the operations and models of a document, in its order.
//! - [`render`], [`docs`]: the texts of the generated files.
//! - [`plan`]: the list of writes.
//! - [`generate`]: the run itself.
//! - [`order`]: what a run puts into the manifest.
//! - [`text`], [`error`]: text operations, and the failures of a run.

pub mod docs;
pub mod error;
pub mod generate;
pub mod name;
pub mod node;
pub mod order;
pub mod params;
pub mod plan;
pub mod refs;
pub mod render;
pub mod template;
pub mod text;
pub mod walk;
pub mod yaml;
