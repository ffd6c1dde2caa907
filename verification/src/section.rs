//! Per-section output state: the file and page names already written, and
//! the choice of a fresh page file name when a title repeats.
use vstd::prelude::*;
use vstd::string::StringExecFns;

use crate::utils::dec_digits;
use crate::utils::lemma_dec_digits_injective;
use crate::utils::lemma_dec_digits_len;
use crate::utils::u64_to_decimal;

verus! {

broadcast use {vstd::seq_lib::group_seq_properties, vstd::seq_lib::seq_to_set_is_finite};

/// The models of a list of names.
pub open spec fn name_views(names: Seq<String>) -> Seq<Seq<char>> {
    names.map_values(|s: String| s@)
}

/// The `i`-th candidate for a page file name: the base name itself first,
/// then the base name with an underscore and a counter.
pub open spec fn page_name_candidate(base: Seq<char>, i: nat) -> Seq<char> {
    if i == 0 {
        base
    } else {
        base + seq!['_'] + dec_digits(i)
    }
}

/// Distinct counters give distinct candidates for one base name.
pub proof fn lemma_candidate_injective(base: Seq<char>, i: nat, j: nat)
    requires
        page_name_candidate(base, i) == page_name_candidate(base, j),
    ensures
        i == j,
{
    if i == 0 && j != 0 {
        lemma_dec_digits_len(j);
        assert(page_name_candidate(base, j).len() > base.len());
    } else if i != 0 && j == 0 {
        lemma_dec_digits_len(i);
        assert(page_name_candidate(base, i).len() > base.len());
    } else if i != 0 && j != 0 {
        let ci = page_name_candidate(base, i);
        let cj = page_name_candidate(base, j);
        lemma_dec_digits_len(i);
        lemma_dec_digits_len(j);
        assert(ci.len() == base.len() + 1 + dec_digits(i).len());
        assert(cj.len() == base.len() + 1 + dec_digits(j).len());
        assert forall|k: int| 0 <= k < dec_digits(i).len() implies #[trigger] dec_digits(i)[k]
            == dec_digits(j)[k] by {
            assert(ci[base.len() + 1 + k] == dec_digits(i)[k]);
            assert(cj[base.len() + 1 + k] == dec_digits(j)[k]);
        }
        assert(dec_digits(i) =~= dec_digits(j));
        lemma_dec_digits_injective(i, j);
    }
}

/// A finite set holding the first `n + 1` candidates for one base name
/// holds at least `n + 1` names.
pub proof fn lemma_candidates_fill(base: Seq<char>, names: Set<Seq<char>>, n: nat)
    requires
        names.finite(),
        forall|j: nat| j <= n ==> names.contains(#[trigger] page_name_candidate(base, j)),
    ensures
        names.len() >= n + 1,
    decreases n,
{
    if n == 0 {
        assert(names.contains(page_name_candidate(base, 0)));
        assert(names.remove(page_name_candidate(base, 0)).len() == names.len() - 1);
    } else {
        let top = page_name_candidate(base, n);
        let rest = names.remove(top);
        assert forall|j: nat| j <= n - 1 implies rest.contains(
            #[trigger] page_name_candidate(base, j),
        ) by {
            assert(names.contains(page_name_candidate(base, j)));
            if page_name_candidate(base, j) == top {
                lemma_candidate_injective(base, j, n);
            }
        }
        lemma_candidates_fill(base, rest, (n - 1) as nat);
        assert(rest.len() == names.len() - 1);
    }
}

/// Tests whether a list of names holds the given name.
fn names_contain(names: &Vec<String>, name: &String) -> (r: bool)
    ensures
        r == name_views(names@).to_set().contains(name@),
{
    let mut k: usize = 0;
    while k < names.len()
        invariant
            0 <= k <= names@.len(),
            forall|m: int| 0 <= m < k ==> #[trigger] names@[m]@ != name@,
        decreases names@.len() - k,
    {
        if names[k].eq(name) {
            proof {
                assert(name_views(names@)[k as int] == name@);
                assert(name_views(names@).contains(name@));
            }
            return true;
        }
        k = k + 1;
    }
    proof {
        if name_views(names@).to_set().contains(name@) {
            let m = choose|m: int|
                0 <= m < name_views(names@).len() && name_views(names@)[m] == name@;
            assert(names@[m]@ == name@);
        }
    }
    false
}

/// Renders one section: tracks the embedded-file and page file names already
/// written, so that every output file gets a fresh name.
pub struct Renderer {
    /// The embedded-file names already written.
    pub(crate) files: Vec<String>,
    /// The page file names already written.
    pub(crate) pages: Vec<String>,
}

impl Renderer {
    /// The set of embedded-file names already written.
    pub closed spec fn files_view(&self) -> Set<Seq<char>> {
        name_views(self.files@).to_set()
    }

    /// The set of page file names already written.
    pub closed spec fn pages_view(&self) -> Set<Seq<char>> {
        name_views(self.pages@).to_set()
    }

    /// A fresh renderer, with no names written yet.
    pub fn new() -> (r: Renderer)
        ensures
            r.files_view() == Set::<Seq<char>>::empty(),
            r.pages_view() == Set::<Seq<char>>::empty(),
    {
        let r = Renderer { files: Vec::new(), pages: Vec::new() };
        proof {
            assert(name_views(r.files@) =~= Seq::<Seq<char>>::empty());
            assert(name_views(r.pages@) =~= Seq::<Seq<char>>::empty());
            assert(r.files_view() =~= Set::<Seq<char>>::empty());
            assert(r.pages_view() =~= Set::<Seq<char>>::empty());
        }
        r
    }

    /// Picks the page file name for the given title: the title itself if no
    /// page used it yet, else the title with the first free counter suffix.
    /// The chosen name is recorded as used.
    pub fn determine_page_filename(&mut self, filename: &str) -> (r: String)
        ensures
            !old(self).pages_view().contains(r@),
            final(self).pages_view() == old(self).pages_view().insert(r@),
            final(self).files_view() == old(self).files_view(),
            exists|i: nat|
                #[trigger] page_name_candidate(filename@, i) == r@ && forall|j: nat|
                    j < i ==> old(self).pages_view().contains(
                        #[trigger] page_name_candidate(filename@, j),
                    ),
    {
        proof {
            name_views(self.pages@).lemma_cardinality_of_set();
        }
        let ghost used = old(self).pages_view();
        let ghost base = filename@;
        let total_pages = self.pages.len();
        let mut i: u64 = 0;
        loop
            invariant
                self.files == old(self).files,
                self.pages == old(self).pages,
                used == old(self).pages_view(),
                used.finite(),
                used.len() <= self.pages@.len(),
                total_pages == self.pages@.len(),
                base == filename@,
                i <= self.pages@.len(),
                forall|j: nat| j < i ==> used.contains(#[trigger] page_name_candidate(base, j)),
            decreases self.pages@.len() - i,
        {
            let current = if i == 0 {
                String::from_str(filename)
            } else {
                let mut c = String::from_str(filename);
                c.append("_");
                let digits = u64_to_decimal(i);
                c.append(digits.as_str());
                proof {
                    reveal_strlit("_");
                    assert(c@ =~= page_name_candidate(base, i as nat));
                }
                c
            };
            proof {
                assert(current@ == page_name_candidate(base, i as nat));
            }
            if !names_contain(&self.pages, &current) {
                let ghost r_view = current@;
                self.pages.push(current.clone());
                proof {
                    let pre = old(self).pages@;
                    assert(self.pages@.len() == pre.len() + 1);
                    assert(self.pages@[pre.len() as int]@ == r_view);
                    assert(name_views(self.pages@) =~= name_views(pre).push(r_view));
                    assert(self.pages_view() =~= old(self).pages_view().insert(r_view));
                }
                return current;
            }
            proof {
                assert(forall|j: nat|
                    j <= i ==> used.contains(#[trigger] page_name_candidate(base, j)));
                lemma_candidates_fill(base, used, i as nat);
            }
            i = i + 1;
        }
    }
}

} // verus!
