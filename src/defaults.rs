//! The value that each setting of a run configuration takes where it is not written.
use crate::runspec::{default_runspec, texts, OutputFormat, Runspec};
use vstd::prelude::*;

verus! {

pub fn name() -> (r: String)
    ensures
        r@ == default_runspec().name,
{
    Runspec::default().name
}

pub fn features() -> (r: Vec<String>)
    ensures
        texts(r@) == default_runspec().features,
{
    Runspec::default().features
}

pub fn format() -> (r: OutputFormat)
    ensures
        r == default_runspec().format,
{
    Runspec::default().format
}

pub fn output() -> (r: String)
    ensures
        r@ == default_runspec().output,
{
    Runspec::default().output
}

pub fn doc() -> (r: bool)
    ensures
        r == default_runspec().doc,
{
    Runspec::default().doc
}

pub fn lib() -> (r: bool)
    ensures
        r == default_runspec().lib,
{
    Runspec::default().lib
}

pub fn integration() -> (r: Vec<String>)
    ensures
        texts(r@) == default_runspec().integration,
{
    Runspec::default().integration
}

} // verus!
