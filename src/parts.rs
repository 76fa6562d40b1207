//! Command arguments of the board fabrication tools, and the search over the
//! component parts list.
use vstd::prelude::*;

verus! {

/// File name of the parts list inside the configuration directory.
pub const PARTS_LIST_FILE: &'static str = "jlcpcb-parts-list.csv";

/// Directory of the configuration, relative to the home directory.
pub const CONFIG_DIR: &'static str = ".config/pcb-generator";

/// Arguments of the bill-of-materials command.
#[derive(Debug, Clone, Copy, PartialEq, Eq, Structural)]
pub struct Bom {
    /// Whether the input separates fields by commas (else by semicolons).
    pub uses_comma: bool,
}

/// Arguments of the component-placement command.
#[derive(Debug, Clone, Copy, PartialEq, Eq, Structural)]
pub struct Cpl {
    /// Whether the input separates fields by commas (else by semicolons).
    pub uses_comma: bool,
}

/// The field delimiter of a CSV input: a comma or a semicolon.
pub fn delimiter(uses_comma: bool) -> (r: u8)
    ensures
        uses_comma ==> r == 44,
        !uses_comma ==> r == 59,
{
    if uses_comma { 44 } else { 59 }
}

/// Arguments of the Gerber archive command.
#[derive(Debug, Clone, Copy, PartialEq, Eq, Structural)]
pub struct Gerber {}

/// Arguments of the parts list download command.
#[derive(Debug, Clone, Copy, PartialEq, Eq, Structural)]
pub struct DownloadPartsList {}

/// One row of the parts list.
#[derive(Debug, Clone)]
pub struct Part {
    pub lcsc: String,
    pub first_cat: String,
    pub second_cat: String,
    pub mfr_part: String,
    pub package: String,
    pub solder_joint: String,
    pub manufacturer: String,
    pub library_type: String,
    pub desc: String,
    pub datasheet: String,
    pub price: String,
    pub stock: usize,
}

/// The whole parts list, in file order.
pub struct PartsList {
    pub inner: Vec<Part>,
}

/// The text with leading and trailing whitespace removed, as `str::trim` gives it.
pub uninterp spec fn trim_of(s: Seq<char>) -> Seq<char>;

/// The text in lower case, as `str::to_lowercase` gives it.
pub uninterp spec fn lower_of(s: Seq<char>) -> Seq<char>;

/// Whether `needle` occurs in `hay` as a contiguous run.
pub open spec fn has_substring(hay: Seq<char>, needle: Seq<char>) -> bool {
    exists|i: int| 0 <= i <= hay.len() - needle.len() && #[trigger] hay.subrange(i, i + needle.len()) == needle
}

/// Relies on `str::trim`: the text without leading and trailing whitespace,
/// which depends on the text alone.
#[verifier::external_body]
pub(crate) fn trimmed(s: &str) -> (r: String)
    ensures
        r@ == trim_of(s@),
{
    s.trim().to_owned()
}

/// Relies on `str::to_lowercase`: the text in lower case, which depends on the
/// text alone.
#[verifier::external_body]
fn lowercase(s: &str) -> (r: String)
    ensures
        r@ == lower_of(s@),
{
    s.to_lowercase()
}

/// Relies on `str::contains` with a `&str` pattern: whether the pattern occurs
/// in the text.
#[verifier::external_body]
fn contains_text(hay: &str, needle: &str) -> (r: bool)
    ensures
        r == has_substring(hay@, needle@),
{
    hay.contains(needle)
}

/// Path of the parts list inside the configuration directory `config_dir`.
pub fn parts_list_path(config_dir: &str) -> (r: String)
    ensures
        r@ == config_dir@ + "/"@ + PARTS_LIST_FILE@,
{
    let mut p = config_dir.to_owned();
    p.append("/");
    p.append(PARTS_LIST_FILE);
    p
}

/// The configuration directory under the home directory `home`.
pub fn config_dir(home: &str) -> (r: String)
    ensures
        r@ == home@ + "/"@ + CONFIG_DIR@,
{
    let mut p = home.to_owned();
    p.append("/");
    p.append(CONFIG_DIR);
    p
}

/// Whether a part matches, given its identifier and categories already
/// normalised: the identifier equals `id`, or a category holds `cat`.
pub open spec fn matches_normalized_spec(
    id: Option<Seq<char>>,
    cat: Option<Seq<char>>,
    lcsc: Seq<char>,
    first_cat: Seq<char>,
    second_cat: Seq<char>,
) -> bool {
    (id is Some && lcsc == id->0)
    || (cat is Some && (has_substring(first_cat, cat->0) || has_substring(second_cat, cat->0)))
}

/// Decides a match on normalised text: `lcsc` and `id` trimmed, the
/// categories lower-cased and trimmed.
pub fn matches_normalized(
    id: &Option<String>,
    cat: &Option<String>,
    lcsc: &String,
    first_cat: &String,
    second_cat: &String,
) -> (r: bool)
    ensures
        r == matches_normalized_spec(
            match id { Some(s) => Some(s@), None => None },
            match cat { Some(s) => Some(s@), None => None },
            lcsc@,
            first_cat@,
            second_cat@,
        ),
{
    let id_matches = match id {
        Some(id) => lcsc.eq(id),
        None => false,
    };
    if id_matches {
        return true;
    }
    match cat {
        Some(cat) => contains_text(first_cat.as_str(), cat.as_str()) || contains_text(
            second_cat.as_str(),
            cat.as_str(),
        ),
        None => false,
    }
}

/// The search arguments: an identifier and a category fragment, either optional.
#[derive(Debug, Clone)]
pub struct SearchPartsList {
    pub id: Option<String>,
    pub cat: Option<String>,
}

/// Whether a part matches a search: its trimmed identifier equals the trimmed
/// `id`, or one of its lower-cased, trimmed categories holds `cat`.
pub open spec fn matches_spec(id: Option<Seq<char>>, cat: Option<Seq<char>>, part: Part) -> bool {
    matches_normalized_spec(
        match id { Some(s) => Some(trim_of(s)), None => None },
        cat,
        trim_of(part.lcsc@),
        trim_of(lower_of(part.first_cat@)),
        trim_of(lower_of(part.second_cat@)),
    )
}

/// The parts of `parts` that match the search, in list order.
pub open spec fn matching_parts(id: Option<Seq<char>>, cat: Option<Seq<char>>, parts: Seq<Part>) -> Seq<Part>
    decreases parts.len(),
{
    if parts.len() == 0 {
        Seq::empty()
    } else {
        let rest = matching_parts(id, cat, parts.drop_last());
        if matches_spec(id, cat, parts.last()) {
            rest.push(parts.last())
        } else {
            rest
        }
    }
}

/// Takes the parts of the list that match the search, in list order.
pub fn find_in_parts_list(list: PartsList, search: &SearchPartsList) -> (r: Vec<Part>)
    ensures
        r@ == matching_parts(search.id_view(), search.cat_view(), list.inner@),
{
    let ghost parts = list.inner@;
    let mut rest = list.inner;
    let mut out: Vec<Part> = Vec::new();
    let ghost mut k: int = 0;
    assert(parts.subrange(0, 0) =~= Seq::<Part>::empty());
    while rest.len() > 0
        invariant
            0 <= k <= parts.len(),
            rest@ == parts.subrange(k, parts.len() as int),
            out@ == matching_parts(search.id_view(), search.cat_view(), parts.subrange(0, k)),
        decreases rest@.len(),
    {
        let part = rest.remove(0);
        proof {
            assert(part == parts[k]);
            assert(parts.subrange(0, k + 1).drop_last() =~= parts.subrange(0, k));
            assert(rest@ =~= parts.subrange(k + 1, parts.len() as int));
        }
        if search.matches(&part) {
            out.push(part);
        }
        proof {
            k = k + 1;
        }
    }
    assert(parts.subrange(0, k) =~= parts);
    out
}

impl SearchPartsList {
    pub open spec fn id_view(&self) -> Option<Seq<char>> {
        match self.id { Some(s) => Some(s@), None => None }
    }

    pub open spec fn cat_view(&self) -> Option<Seq<char>> {
        match self.cat { Some(s) => Some(s@), None => None }
    }

    /// The search with its category fragment trimmed and lower-cased, as the
    /// search compares it.
    pub fn normalized(self) -> (r: Self)
        ensures
            r.id_view() == self.id_view(),
            r.cat_view() == match self.cat_view() { Some(c) => Some(lower_of(trim_of(c))), None => None },
    {
        let cat = match &self.cat {
            Some(c) => {
                let t = trimmed(c.as_str());
                Some(lowercase(t.as_str()))
            },
            None => None,
        };
        SearchPartsList { id: self.id, cat }
    }

    /// Whether `part` matches this search.
    pub fn matches(&self, part: &Part) -> (r: bool)
        ensures
            r == matches_spec(self.id_view(), self.cat_view(), *part),
    {
        let id = match &self.id {
            Some(s) => Some(trimmed(s.as_str())),
            None => None,
        };
        let lcsc = trimmed(part.lcsc.as_str());
        let a = lowercase(part.first_cat.as_str());
        let b = lowercase(part.second_cat.as_str());
        let a = trimmed(a.as_str());
        let b = trimmed(b.as_str());
        matches_normalized(&id, &self.cat, &lcsc, &a, &b)
    }

    /// Positions of the parts that match, in list order.
    pub fn matching_indices(&self, parts: &Vec<Part>) -> (r: Vec<usize>)
        ensures
            forall|k: int| 0 <= k < r@.len() ==> r@[k] < parts@.len()
                && matches_spec(self.id_view(), self.cat_view(), parts@[r@[k] as int]),
            forall|k1: int, k2: int| 0 <= k1 < k2 < r@.len() ==> r@[k1] < r@[k2],
            forall|i: int| 0 <= i < parts@.len() && matches_spec(self.id_view(), self.cat_view(), #[trigger] parts@[i])
                ==> r@.contains(i as usize),
    {
        let mut r: Vec<usize> = Vec::new();
        let mut i: usize = 0;
        while i < parts.len()
            invariant
                i <= parts@.len(),
                forall|k: int| 0 <= k < r@.len() ==> r@[k] < i
                    && matches_spec(self.id_view(), self.cat_view(), parts@[r@[k] as int]),
                forall|k1: int, k2: int| 0 <= k1 < k2 < r@.len() ==> r@[k1] < r@[k2],
                forall|j: int| 0 <= j < i && matches_spec(self.id_view(), self.cat_view(), #[trigger] parts@[j])
                    ==> r@.contains(j as usize),
            decreases parts@.len() - i,
        {
            if self.matches(&parts[i]) {
                let ghost before = r@;
                r.push(i);
                proof {
                    assert forall|j: int| 0 <= j <= i && matches_spec(self.id_view(), self.cat_view(), #[trigger] parts@[j])
                        implies r@.contains(j as usize) by {
                        if j < i {
                            let k = choose|k: int| 0 <= k < before.len() && before[k] == j as usize;
                            assert(r@[k] == j as usize);
                        } else {
                            assert(r@[before.len() as int] == j as usize);
                        }
                    }
                }
            }
            i = i + 1;
        }
        r
    }
}

} // verus!
