//! The inscription listing: sort orders, rarity and number filters, and the
//! query string that keeps them across pages.
use vstd::prelude::*;
use crate::text::{chars_of, concat_chars, decimal, i32_text, join, join_chars, push_part, string_of};

verus! {

/// `ordinals::Charm` is a public enum of fieldless variants; it is declared
/// with its variants visible so that verified code can name them.
#[verifier::external_type_specification]
pub struct ExCharm(ordinals::Charm);

/// The bit that `ordinals::Charm::flag` gives each charm: `1 << n` for the
/// charm's discriminant `n`.
pub open spec fn charm_flag(charm: ordinals::Charm) -> u16 {
    match charm {
        ordinals::Charm::Coin => 1,
        ordinals::Charm::Cursed => 2,
        ordinals::Charm::Epic => 4,
        ordinals::Charm::Legendary => 8,
        ordinals::Charm::Lost => 16,
        ordinals::Charm::Nineball => 32,
        ordinals::Charm::Rare => 64,
        ordinals::Charm::Reinscription => 128,
        ordinals::Charm::Unbound => 256,
        ordinals::Charm::Uncommon => 512,
        ordinals::Charm::Vindicated => 1024,
        ordinals::Charm::Mythic => 2048,
        ordinals::Charm::Burned => 4096,
        ordinals::Charm::Palindrome => 8192,
    }
}

/// `ordinals::Charm::is_set`: whether the charm's flag bit is set in `charms`
/// (its source: `charms & self.flag() != 0`, with `flag` being `1 << self as u16`).
pub assume_specification[ordinals::Charm::is_set](charm: ordinals::Charm, charms: u16) -> (r: bool)
    ensures
        r == ((charms & charm_flag(charm)) != 0),
;

/// The order in which inscriptions are listed.
#[derive(Clone, Copy, Debug, PartialEq, Eq, Structural)]
pub enum Sort {
    Newest,
    Oldest,
}

impl Default for Sort {
    fn default() -> (r: Self)
        ensures
            r == Sort::Newest,
    {
        Sort::Newest
    }
}

impl Sort {
    /// The name of the order in a query string.
    pub open spec fn name(self) -> Seq<char> {
        match self {
            Sort::Newest => "newest"@,
            Sort::Oldest => "oldest"@,
        }
    }

    /// The name of the order in a query string.
    pub fn to_string(&self) -> (r: String)
        ensures
            r@ == self.name(),
    {
        match self {
            Sort::Newest => "newest".to_owned(),
            Sort::Oldest => "oldest".to_owned(),
        }
    }

    /// The heading shown for the order.
    pub fn label(self) -> (r: &'static str)
        ensures
            r@ == (match self {
                Sort::Newest => "Recently Inscribed"@,
                Sort::Oldest => "Earliest Inscribed"@,
            }),
    {
        match self {
            Sort::Newest => "Recently Inscribed",
            Sort::Oldest => "Earliest Inscribed",
        }
    }
}

/// The rarity that listed inscriptions must carry.
#[derive(Clone, Copy, Debug, PartialEq, Eq, Structural)]
pub enum Rarity {
    Any,
    Uncommon,
    Rare,
    Epic,
    Legendary,
    Mythic,
}

impl Default for Rarity {
    fn default() -> (r: Self)
        ensures
            r == Rarity::Any,
    {
        Rarity::Any
    }
}

impl Rarity {
    /// The name of the rarity in a query string.
    pub open spec fn name(self) -> Seq<char> {
        match self {
            Rarity::Any => "any"@,
            Rarity::Uncommon => "uncommon"@,
            Rarity::Rare => "rare"@,
            Rarity::Epic => "epic"@,
            Rarity::Legendary => "legendary"@,
            Rarity::Mythic => "mythic"@,
        }
    }

    /// The name of the rarity in a query string.
    pub fn to_string(&self) -> (r: String)
        ensures
            r@ == self.name(),
    {
        match self {
            Rarity::Any => "any".to_owned(),
            Rarity::Uncommon => "uncommon".to_owned(),
            Rarity::Rare => "rare".to_owned(),
            Rarity::Epic => "epic".to_owned(),
            Rarity::Legendary => "legendary".to_owned(),
            Rarity::Mythic => "mythic".to_owned(),
        }
    }

    /// The charm that an inscription of this rarity carries; none for `Any`.
    pub open spec fn charm_of(self) -> Option<ordinals::Charm> {
        match self {
            Rarity::Any => None,
            Rarity::Uncommon => Some(ordinals::Charm::Uncommon),
            Rarity::Rare => Some(ordinals::Charm::Rare),
            Rarity::Epic => Some(ordinals::Charm::Epic),
            Rarity::Legendary => Some(ordinals::Charm::Legendary),
            Rarity::Mythic => Some(ordinals::Charm::Mythic),
        }
    }

    /// The charm that an inscription of this rarity carries; none for `Any`.
    pub fn charm(self) -> (r: Option<ordinals::Charm>)
        ensures
            r == self.charm_of(),
    {
        match self {
            Rarity::Any => None,
            Rarity::Uncommon => Some(ordinals::Charm::Uncommon),
            Rarity::Rare => Some(ordinals::Charm::Rare),
            Rarity::Epic => Some(ordinals::Charm::Epic),
            Rarity::Legendary => Some(ordinals::Charm::Legendary),
            Rarity::Mythic => Some(ordinals::Charm::Mythic),
        }
    }
}

/// What a filter reads of an inscription in the index.
#[derive(Clone, Copy, Debug)]
pub struct InscriptionEntry {
    /// The inscription's charms, one bit per charm.
    pub charms: u16,
    /// The inscription's number; cursed inscriptions have negative numbers.
    pub inscription_number: i32,
}

/// Which inscriptions a listing shows.
#[derive(Clone, Copy, Debug)]
pub struct Filter {
    pub cursed: bool,
    pub from: Option<i32>,
    pub to: Option<i32>,
    pub rarity: Rarity,
}

impl Default for Filter {
    fn default() -> (r: Self)
        ensures
            r == (Filter { cursed: false, from: None, to: None, rarity: Rarity::Any }),
    {
        Filter { cursed: false, from: None, to: None, rarity: Rarity::Any }
    }
}

impl Filter {
    /// The filter lets an inscription with this number and these charms through:
    /// cursed only lets negative numbers through, `from` and `to` bound the
    /// number inclusively, and a rarity asks for its charm.
    pub open spec fn admits(self, number: i32, charms: u16) -> bool {
        &&& !(self.cursed && number >= 0)
        &&& (self.from matches Some(from) ==> number >= from)
        &&& (self.to matches Some(to) ==> number <= to)
        &&& (self.rarity.charm_of() matches Some(charm) ==> (charms & charm_flag(charm)) != 0)
    }

    /// The filter asks for nothing.
    pub open spec fn unfiltered(self) -> bool {
        !self.cursed && self.from is None && self.to is None && self.rarity == Rarity::Any
    }

    pub fn is_unfiltered(&self) -> (r: bool)
        ensures
            r == self.unfiltered(),
    {
        !self.cursed && self.from.is_none() && self.to.is_none() && self.rarity == Rarity::Any
    }

    pub fn matches(&self, entry: &InscriptionEntry) -> (r: bool)
        ensures
            r == self.admits(entry.inscription_number, entry.charms),
    {
        if self.cursed && entry.inscription_number >= 0 {
            return false;
        }
        if let Some(from) = self.from {
            if entry.inscription_number < from {
                return false;
            }
        }
        if let Some(to) = self.to {
            if entry.inscription_number > to {
                return false;
            }
        }
        if let Some(charm) = self.rarity.charm() {
            if !charm.is_set(entry.charms) {
                return false;
            }
        }
        true
    }
}

/// A page of the inscription listing.
pub struct InscriptionsHtml {
    pub prev: Option<u32>,
    pub next: Option<u32>,
    pub sort: Sort,
    pub filter: Filter,
    pub index_sats: bool,
}

/// The text of an optional number; empty when there is none.
pub open spec fn number_text(n: Option<i32>) -> Seq<char> {
    match n {
        Some(n) => decimal(n as int),
        None => Seq::empty(),
    }
}

impl InscriptionsHtml {
    /// The `name=value` pairs that keep the sort and the active filters.
    pub open spec fn query_parts(self) -> Seq<Seq<char>> {
        (if self.sort != Sort::Newest { seq!["sort="@ + self.sort.name()] } else { Seq::empty() })
            + (if self.filter.cursed { seq!["cursed=1"@] } else { Seq::empty() })
            + (match self.filter.from {
                Some(from) => seq!["from="@ + decimal(from as int)],
                None => Seq::empty(),
            })
            + (match self.filter.to {
                Some(to) => seq!["to="@ + decimal(to as int)],
                None => Seq::empty(),
            })
            + (if self.filter.rarity != Rarity::Any { seq!["rarity="@ + self.filter.rarity.name()] } else { Seq::empty() })
    }

    /// The query string of the page links: empty when nothing is to be kept,
    /// otherwise `?` and the pairs joined by `&`.
    pub open spec fn query(self) -> Seq<char> {
        if self.query_parts().len() == 0 {
            Seq::empty()
        } else {
            seq!['?'] + join(self.query_parts(), seq!['&'])
        }
    }

    /// The query string, with its leading `?`, that keeps the sort and the
    /// active filters in the links to the previous and next pages.
    pub fn pagination_query(&self) -> (r: String)
        ensures
            r@ == self.query(),
    {
        let mut parts: Vec<Vec<char>> = Vec::new();
        assert(parts.deep_view() =~= Seq::<Seq<char>>::empty());
        let ghost expected = self.query_parts();
        let ghost p1 = if self.sort != Sort::Newest { seq!["sort="@ + self.sort.name()] } else { Seq::<Seq<char>>::empty() };
        if self.sort != Sort::Newest {
            let part = concat_chars(chars_of("sort="), &chars_of(self.sort.to_string().as_str()));
            push_part(&mut parts, part);
        }
        assert(parts.deep_view() =~= p1);
        let ghost p2 = p1 + (if self.filter.cursed { seq!["cursed=1"@] } else { Seq::<Seq<char>>::empty() });
        if self.filter.cursed {
            push_part(&mut parts, chars_of("cursed=1"));
        }
        assert(parts.deep_view() =~= p2);
        let ghost p3 = p2 + (match self.filter.from {
            Some(from) => seq!["from="@ + decimal(from as int)],
            None => Seq::<Seq<char>>::empty(),
        });
        if let Some(from) = self.filter.from {
            let part = concat_chars(chars_of("from="), &chars_of(i32_text(from).as_str()));
            push_part(&mut parts, part);
        }
        assert(parts.deep_view() =~= p3);
        let ghost p4 = p3 + (match self.filter.to {
            Some(to) => seq!["to="@ + decimal(to as int)],
            None => Seq::<Seq<char>>::empty(),
        });
        if let Some(to) = self.filter.to {
            let part = concat_chars(chars_of("to="), &chars_of(i32_text(to).as_str()));
            push_part(&mut parts, part);
        }
        assert(parts.deep_view() =~= p4);
        if self.filter.rarity != Rarity::Any {
            let part = concat_chars(chars_of("rarity="), &chars_of(self.filter.rarity.to_string().as_str()));
            push_part(&mut parts, part);
        }
        assert(parts.deep_view() =~= expected);
        if parts.len() == 0 {
            String::new()
        } else {
            let joined = join_chars(&parts, '&');
            let mut out: Vec<char> = Vec::new();
            out.push('?');
            string_of(&concat_chars(out, &joined))
        }
    }

    pub fn selected_sort_if(&self, sort: Sort) -> (r: &'static str)
        ensures
            r@ == (if self.sort == sort { " selected"@ } else { ""@ }),
    {
        if self.sort == sort { " selected" } else { "" }
    }

    pub fn selected_rarity_if(&self, rarity: Rarity) -> (r: &'static str)
        ensures
            r@ == (if self.filter.rarity == rarity { " selected"@ } else { ""@ }),
    {
        if self.filter.rarity == rarity { " selected" } else { "" }
    }

    pub fn cursed_class(&self) -> (r: &'static str)
        ensures
            r@ == (if self.filter.cursed { "active"@ } else { ""@ }),
    {
        if self.filter.cursed { "active" } else { "" }
    }

    pub fn cursed_checked(&self) -> (r: &'static str)
        ensures
            r@ == (if self.filter.cursed { " checked"@ } else { ""@ }),
    {
        if self.filter.cursed { " checked" } else { "" }
    }

    /// The lower number bound as shown in the filter form.
    pub fn from_value(&self) -> (r: String)
        ensures
            r@ == number_text(self.filter.from),
    {
        match self.filter.from {
            Some(n) => i32_text(n),
            None => String::new(),
        }
    }

    /// The upper number bound as shown in the filter form.
    pub fn to_value(&self) -> (r: String)
        ensures
            r@ == number_text(self.filter.to),
    {
        match self.filter.to {
            Some(n) => i32_text(n),
            None => String::new(),
        }
    }

    /// The page title.
    pub fn title(&self) -> (r: String)
        ensures
            r@ == "Inscriptions"@,
    {
        "Inscriptions".to_owned()
    }
}

} // verus!
