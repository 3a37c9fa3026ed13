//! Declarations of the `scraper` engine's opaque types, so that they can
//! stand in signatures and fields of the facade.

use vstd::prelude::*;

verus! {

#[verifier::external_type_specification]
#[verifier::external_body]
pub struct ExScraperHtml(scraper::Html);

#[verifier::external_type_specification]
#[verifier::external_body]
pub struct ExScraperSelector(scraper::Selector);

#[verifier::external_type_specification]
#[verifier::external_body]
pub struct ExScraperElementRef<'a>(scraper::ElementRef<'a>);

} // verus!
