//! The message that carries a parsed event to the stage that makes a store
//! event of it.

use crate::gelf::gelf_reader::GelfDataWrapper;
use vstd::prelude::*;

verus! {

/// A parsed GELF event on its way to the translator.
pub struct GelfProcessorMessage(pub GelfDataWrapper);

} // verus!
