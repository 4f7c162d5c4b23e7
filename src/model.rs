use vstd::prelude::*;

verus! {

/// What a bang is, as a value: one directory record.
pub struct BangView {
    pub id: Seq<char>,
    pub name: Seq<char>,
    pub search_url: Seq<char>,
    pub home_url: Seq<char>,
    pub category: Seq<char>,
    pub is_custom: bool,
}

/// One directory record: a trigger and the site it sends a query to.
pub struct Bang {
    pub id: String,
    pub name: String,
    pub search_url: String,
    pub home_url: String,
    pub category: String,
    pub is_custom: bool,
}

impl View for Bang {
    type V = BangView;

    open spec fn view(&self) -> BangView {
        BangView {
            id: self.id@,
            name: self.name@,
            search_url: self.search_url@,
            home_url: self.home_url@,
            category: self.category@,
            is_custom: self.is_custom,
        }
    }
}

impl Clone for Bang {
    fn clone(&self) -> (r: Self)
        ensures
            r@ == self@,
    {
        Bang {
            id: self.id.clone(),
            name: self.name.clone(),
            search_url: self.search_url.clone(),
            home_url: self.home_url.clone(),
            category: self.category.clone(),
            is_custom: self.is_custom,
        }
    }
}

/// A feed element as decoded: every field may be missing.
pub struct DuckDuckGoBangView {
    pub category: Option<Seq<char>>,
    pub domain: Option<Seq<char>>,
    pub name: Option<Seq<char>>,
    pub subcategory: Option<Seq<char>>,
    pub trigger: Option<Seq<char>>,
    pub url: Option<Seq<char>>,
    pub rank: Option<i32>,
}

/// One element of the feed, with the feed's fields: category (`c`),
/// domain (`d`), display name (`s`), subcategory (`sc`), trigger (`t`),
/// URL template (`u`) and rank (`r`, unused).
pub struct DuckDuckGoBang {
    pub category: Option<String>,
    pub domain: Option<String>,
    pub name: Option<String>,
    pub subcategory: Option<String>,
    pub trigger: Option<String>,
    pub url: Option<String>,
    pub rank: Option<i32>,
}

pub open spec fn opt_view(o: Option<String>) -> Option<Seq<char>> {
    match o {
        Some(s) => Some(s@),
        None => None,
    }
}

impl View for DuckDuckGoBang {
    type V = DuckDuckGoBangView;

    open spec fn view(&self) -> DuckDuckGoBangView {
        DuckDuckGoBangView {
            category: opt_view(self.category),
            domain: opt_view(self.domain),
            name: opt_view(self.name),
            subcategory: opt_view(self.subcategory),
            trigger: opt_view(self.trigger),
            url: opt_view(self.url),
            rank: self.rank,
        }
    }
}

impl DuckDuckGoBangView {
    /// All six required fields are present.
    pub open spec fn is_valid(self) -> bool {
        &&& self.category is Some
        &&& self.domain is Some
        &&& self.name is Some
        &&& self.subcategory is Some
        &&& self.trigger is Some
        &&& self.url is Some
    }

    /// The directory record a valid element stands for.
    pub open spec fn to_bang(self) -> BangView {
        BangView {
            id: self.trigger->0,
            name: self.name->0,
            search_url: self.url->0,
            home_url: "https://"@ + self.domain->0,
            category: self.category->0 + " - "@ + self.subcategory->0,
            is_custom: false,
        }
    }
}

impl DuckDuckGoBang {
    pub fn is_valid(&self) -> (r: bool)
        ensures
            r == self@.is_valid(),
    {
        self.category.is_some() && self.domain.is_some() && self.name.is_some()
            && self.subcategory.is_some() && self.trigger.is_some() && self.url.is_some()
    }

    /// The trigger and the record of a valid element; `None` for an element
    /// that lacks a required field.
    pub fn to_bang(&self) -> (r: Option<(String, Bang)>)
        ensures
            r is Some <==> self@.is_valid(),
            r is Some ==> (r->0).0@ == self@.trigger->0 && (r->0).1@ == self@.to_bang(),
    {
        match (&self.category, &self.domain, &self.name, &self.subcategory, &self.trigger, &self.url) {
            (Some(category), Some(domain), Some(name), Some(subcategory), Some(trigger), Some(url)) => {
                let mut home_url = String::from_str("https://");
                home_url.append(domain.as_str());
                let mut full_category = category.clone();
                full_category.append(" - ");
                full_category.append(subcategory.as_str());
                let bang = Bang {
                    id: trigger.clone(),
                    name: name.clone(),
                    search_url: url.clone(),
                    home_url,
                    category: full_category,
                    is_custom: false,
                };
                Some((trigger.clone(), bang))
            },
            _ => None,
        }
    }
}

} // verus!
