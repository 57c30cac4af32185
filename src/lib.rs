//! Turns parsed markdown documents into one rendered documentation page model:
//! level-2 headings become navigable sections, block and inline markup become
//! HTML fragments, and code blocks may be handed to extensions or to a diagram
//! renderer.
pub mod cli;
pub mod config;
pub mod indexer;
pub mod markup;
pub mod page;
pub mod sections;
pub mod text;
pub mod transpiler;
