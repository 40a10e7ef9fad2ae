//! Preset locators offered when a new row is drafted.

use vstd::prelude::*;

verus! {

/// A preset for the locator field of a new row.
#[derive(Clone, Copy, Debug, PartialEq, Eq, Structural)]
pub enum SelectorOption {
    Custom,
    AmazonItemPrice,
    AmazonBookPrice,
    EbayPrice,
}

impl SelectorOption {
    /// The label shown for this preset.
    pub open spec fn label(self) -> Seq<char> {
        match self {
            SelectorOption::Custom => "Custom"@,
            SelectorOption::AmazonItemPrice => "Amazon Item Price"@,
            SelectorOption::AmazonBookPrice => "Amazon Book Price"@,
            SelectorOption::EbayPrice => "Ebay Price"@,
        }
    }

    /// The locator text that this preset stands for; empty for `Custom`.
    pub open spec fn selector(self) -> Seq<char> {
        match self {
            SelectorOption::Custom => ""@,
            SelectorOption::AmazonItemPrice => ".a-offscreen"@,
            SelectorOption::AmazonBookPrice => ".aok-offscreen"@,
            SelectorOption::EbayPrice => "div.x-price-primary span.ux-textspans"@,
        }
    }

    /// All presets, in the order in which they are offered.
    pub open spec fn options() -> Seq<SelectorOption> {
        seq![
            SelectorOption::Custom,
            SelectorOption::AmazonItemPrice,
            SelectorOption::AmazonBookPrice,
            SelectorOption::EbayPrice,
        ]
    }

    /// The preset that a locator text selects: the first one, in the order of
    /// `options`, whose locator equals the text, and `Custom` where none does.
    pub open spec fn matching(css: Seq<char>) -> SelectorOption {
        if css == SelectorOption::Custom.selector() {
            SelectorOption::Custom
        } else if css == SelectorOption::AmazonItemPrice.selector() {
            SelectorOption::AmazonItemPrice
        } else if css == SelectorOption::AmazonBookPrice.selector() {
            SelectorOption::AmazonBookPrice
        } else if css == SelectorOption::EbayPrice.selector() {
            SelectorOption::EbayPrice
        } else {
            SelectorOption::Custom
        }
    }

    /// The label shown for this preset.
    pub fn as_str(&self) -> (text: &'static str)
        ensures
            text@ == self.label(),
    {
        match self {
            SelectorOption::Custom => "Custom",
            SelectorOption::AmazonItemPrice => "Amazon Item Price",
            SelectorOption::AmazonBookPrice => "Amazon Book Price",
            SelectorOption::EbayPrice => "Ebay Price",
        }
    }

    /// All presets, in the order in which they are offered.
    pub fn get_options() -> (all: [SelectorOption; 4])
        ensures
            all@ == SelectorOption::options(),
    {
        [
            SelectorOption::Custom,
            SelectorOption::AmazonItemPrice,
            SelectorOption::AmazonBookPrice,
            SelectorOption::EbayPrice,
        ]
    }

    /// The preset that a locator text selects.
    pub fn for_selector(css_selector: &str) -> (option: SelectorOption)
        ensures
            option == SelectorOption::matching(css_selector@),
    {
        let wanted = css_selector.to_owned();
        let options = SelectorOption::get_options();
        let mut i: usize = 0;
        while i < 4
            invariant
                i <= 4,
                wanted@ == css_selector@,
                options@ == SelectorOption::options(),
                forall|k: int| 0 <= k < i ==> SelectorOption::options()[k].selector() != wanted@,
            decreases 4 - i,
        {
            let option = options[i];
            if option.get_selector().to_owned() == wanted {
                return option;
            }
            i += 1;
        }
        SelectorOption::Custom
    }

    /// The locator text that this preset stands for; empty for `Custom`.
    pub fn get_selector(&self) -> (text: &'static str)
        ensures
            text@ == self.selector(),
    {
        match self {
            SelectorOption::Custom => "",
            SelectorOption::AmazonItemPrice => ".a-offscreen",
            SelectorOption::AmazonBookPrice => ".aok-offscreen",
            SelectorOption::EbayPrice => "div.x-price-primary span.ux-textspans",
        }
    }
}

/// Each preset is the one that its own locator selects: no two presets share
/// a locator.
pub proof fn lemma_locator_selects_its_preset(option: SelectorOption)
    ensures
        SelectorOption::matching(option.selector()) == option,
{
    reveal_strlit("");
    reveal_strlit(".a-offscreen");
    reveal_strlit(".aok-offscreen");
    reveal_strlit("div.x-price-primary span.ux-textspans");
    assert(""@.len() == 0);
    assert(".a-offscreen"@.len() == 12);
    assert(".aok-offscreen"@.len() == 14);
    assert("div.x-price-primary span.ux-textspans"@.len() == 37);
}

} // verus!
