use vstd::prelude::*;

verus! {

/// A spot market, such as BTC quoted in USDT.
#[derive(Clone, Copy, Debug, Hash, PartialEq, Eq)]
pub struct Spot {
    pub base: &'static str,
    pub quote: &'static str,
}

/// A market as its two token names: base, then quote.
pub type SpotView = (Seq<char>, Seq<char>);

impl View for Spot {
    type V = SpotView;

    open spec fn view(&self) -> SpotView {
        (self.base@, self.quote@)
    }
}

/// The market's symbol as Binance writes it in stream names: quote then base.
pub open spec fn spot_symbol(spot: SpotView) -> Seq<char> {
    spot.1 + spot.0
}

/// Whether two texts hold the same characters.
pub fn same_text(a: &str, b: &str) -> (r: bool)
    ensures
        r == (a@ == b@),
{
    String::from_str(a) == String::from_str(b)
}

impl Spot {
    /// The symbol of the market, the quote token followed by the base token.
    pub fn to_string(&self) -> (s: String)
        ensures
            s@ == spot_symbol(self@),
    {
        let s = String::from_str(self.quote);
        s.concat(self.base)
    }

    /// Whether two values name the same market (the same two token names).
    pub fn same_as(&self, other: &Spot) -> (r: bool)
        ensures
            r == (self@ == other@),
    {
        same_text(self.base, other.base) && same_text(self.quote, other.quote)
    }
}

} // verus!
