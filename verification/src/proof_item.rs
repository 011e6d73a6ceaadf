//! The typed proof-item protocol: the tagged union of every payload that the
//! proof transcript carries, typed extraction with a closed error kind, and
//! the canonical flattening of each variant into a sequence of base-field
//! elements — the exact form the transcript hash absorbs.

use vstd::prelude::*;

use twenty_first::math::b_field_element::BFieldElement;
use twenty_first::math::x_field_element::XFieldElement;

use crate::field::xfe_coefficients;
use crate::field::xfe_coeffs_of;
use crate::table::challenges_endpoints::AllEndpoints;

verus! {

/// One layer of a Merkle authentication path in compressed form: the nodes
/// that the verifier can recompute are absent.
pub struct PartialAuthenticationPath {
    pub nodes: Vec<Option<Vec<BFieldElement>>>,
}

impl PartialAuthenticationPath {
    pub fn new(nodes: Vec<Option<Vec<BFieldElement>>>) -> (r: Self)
        ensures
            r.nodes == nodes,
    {
        PartialAuthenticationPath { nodes }
    }
}

pub type FriProof = Vec<(PartialAuthenticationPath, XFieldElement)>;

pub type CompressedAuthenticationPaths = Vec<PartialAuthenticationPath>;

/// Every payload shape the proof transcript can carry. Exactly one variant is
/// active per instance.
pub enum Item {
    CompressedAuthenticationPaths(CompressedAuthenticationPaths),
    TransposedBaseElementVectors(Vec<Vec<BFieldElement>>),
    TransposedExtensionElementVectors(Vec<Vec<XFieldElement>>),
    MerkleRoot(Vec<BFieldElement>),
    Terminals(AllEndpoints),
    TransposedBaseElements(Vec<BFieldElement>),
    TransposedExtensionElements(Vec<XFieldElement>),
    AuthenticationPath(Vec<Vec<BFieldElement>>),
    RevealedCombinationElement(XFieldElement),
    RevealedCombinationElements(Vec<XFieldElement>),
    FriCodeword(Vec<XFieldElement>),
    FriProof(FriProof),
    SharedPaddedHeight(BFieldElement),
}

/// The tag of an [`Item`] variant, used to report a typed-extraction
/// mismatch.
#[derive(Clone, Copy, Debug, PartialEq, Eq, Structural)]
pub enum ItemKind {
    CompressedAuthenticationPaths,
    TransposedBaseElementVectors,
    TransposedExtensionElementVectors,
    MerkleRoot,
    Terminals,
    TransposedBaseElements,
    TransposedExtensionElements,
    AuthenticationPath,
    RevealedCombinationElement,
    RevealedCombinationElements,
    FriCodeword,
    FriProof,
    SharedPaddedHeight,
}

/// A typed extraction failed: the item is not the requested variant. Carries
/// the requested and the actual variant tags.
#[derive(Clone, Copy, Debug, PartialEq, Eq, Structural)]
pub struct ProofItemError {
    pub expected: ItemKind,
    pub found: ItemKind,
}

/// The view of an optional authentication-path node: an absent node
/// contributes nothing to the flattened form.
pub open spec fn node_view(n: Option<Vec<BFieldElement>>) -> Seq<BFieldElement> {
    match n {
        Option::Some(v) => v@,
        Option::None => Seq::empty(),
    }
}

/// The base-field elements found inside one partial authentication path,
/// absent nodes skipped, node order preserved.
pub open spec fn path_flat(p: PartialAuthenticationPath) -> Seq<BFieldElement> {
    p.nodes@.map_values(|n: Option<Vec<BFieldElement>>| node_view(n)).flatten()
}

/// The coefficient decomposition of a sequence of extension-field elements,
/// concatenated in element order.
pub open spec fn xfes_flat(xs: Seq<XFieldElement>) -> Seq<BFieldElement> {
    xs.map_values(|x: XFieldElement| xfe_coeffs_of(x)).flatten()
}

/// Row concatenation, row order preserved.
pub open spec fn rows_flat(rows: Seq<Vec<BFieldElement>>) -> Seq<BFieldElement> {
    rows.map_values(|v: Vec<BFieldElement>| v@).flatten()
}

/// The flattening of a sequence of extension-element vectors: each inner
/// vector flattened per the extension-element rule, concatenated in outer
/// order.
pub open spec fn xfe_rows_flat(xss: Seq<Vec<XFieldElement>>) -> Seq<BFieldElement> {
    xss.map_values(|xs: Vec<XFieldElement>| xfes_flat(xs@)).flatten()
}

/// The flattening of a sequence of partial authentication paths.
pub open spec fn paths_flat(ps: Seq<PartialAuthenticationPath>) -> Seq<BFieldElement> {
    ps.map_values(|p: PartialAuthenticationPath| path_flat(p)).flatten()
}

/// The flattening of FRI-proof entries: for each entry the elements of its
/// partial authentication path, then the flattened extension-field value,
/// in input order.
pub open spec fn fri_entries_flat(es: Seq<(PartialAuthenticationPath, XFieldElement)>) -> Seq<
    BFieldElement,
> {
    es.map_values(|e: (PartialAuthenticationPath, XFieldElement)| path_flat(e.0) + xfe_coeffs_of(e.1)).flatten()
}

impl Item {
    /// The variant tag of this item.
    pub open spec fn kind_spec(self) -> ItemKind {
        match self {
            Item::CompressedAuthenticationPaths(_) => ItemKind::CompressedAuthenticationPaths,
            Item::TransposedBaseElementVectors(_) => ItemKind::TransposedBaseElementVectors,
            Item::TransposedExtensionElementVectors(_) => ItemKind::TransposedExtensionElementVectors,
            Item::MerkleRoot(_) => ItemKind::MerkleRoot,
            Item::Terminals(_) => ItemKind::Terminals,
            Item::TransposedBaseElements(_) => ItemKind::TransposedBaseElements,
            Item::TransposedExtensionElements(_) => ItemKind::TransposedExtensionElements,
            Item::AuthenticationPath(_) => ItemKind::AuthenticationPath,
            Item::RevealedCombinationElement(_) => ItemKind::RevealedCombinationElement,
            Item::RevealedCombinationElements(_) => ItemKind::RevealedCombinationElements,
            Item::FriCodeword(_) => ItemKind::FriCodeword,
            Item::FriProof(_) => ItemKind::FriProof,
            Item::SharedPaddedHeight(_) => ItemKind::SharedPaddedHeight,
        }
    }

    pub fn kind(&self) -> (r: ItemKind)
        ensures
            r == self.kind_spec(),
    {
        match self {
            Item::CompressedAuthenticationPaths(_) => ItemKind::CompressedAuthenticationPaths,
            Item::TransposedBaseElementVectors(_) => ItemKind::TransposedBaseElementVectors,
            Item::TransposedExtensionElementVectors(_) => ItemKind::TransposedExtensionElementVectors,
            Item::MerkleRoot(_) => ItemKind::MerkleRoot,
            Item::Terminals(_) => ItemKind::Terminals,
            Item::TransposedBaseElements(_) => ItemKind::TransposedBaseElements,
            Item::TransposedExtensionElements(_) => ItemKind::TransposedExtensionElements,
            Item::AuthenticationPath(_) => ItemKind::AuthenticationPath,
            Item::RevealedCombinationElement(_) => ItemKind::RevealedCombinationElement,
            Item::RevealedCombinationElements(_) => ItemKind::RevealedCombinationElements,
            Item::FriCodeword(_) => ItemKind::FriCodeword,
            Item::FriProof(_) => ItemKind::FriProof,
            Item::SharedPaddedHeight(_) => ItemKind::SharedPaddedHeight,
        }
    }

    /// The canonical flattening of this item into base-field elements.
    pub open spec fn flatten_spec(self) -> Seq<BFieldElement> {
        match self {
            Item::MerkleRoot(bs) => bs@,
            Item::Terminals(all_endpoints) => xfes_flat(all_endpoints.terminals@),
            Item::TransposedBaseElements(bs) => bs@,
            Item::TransposedExtensionElements(xs) => xfes_flat(xs@),
            Item::AuthenticationPath(bss) => rows_flat(bss@),
            Item::RevealedCombinationElement(x) => xfe_coeffs_of(x),
            Item::FriCodeword(xs) => xfes_flat(xs@),
            Item::RevealedCombinationElements(xs) => xfes_flat(xs@),
            Item::FriProof(fri_proof) => fri_entries_flat(fri_proof@),
            Item::CompressedAuthenticationPaths(paths) => paths_flat(paths@),
            Item::TransposedBaseElementVectors(bss) => rows_flat(bss@),
            Item::TransposedExtensionElementVectors(xss) => xfe_rows_flat(xss@),
            Item::SharedPaddedHeight(h) => seq![h],
        }
    }
}

fn copy_bfes(v: &Vec<BFieldElement>) -> (r: Vec<BFieldElement>)
    ensures
        r@ == v@,
{
    let mut out: Vec<BFieldElement> = Vec::new();
    let mut i: usize = 0;
    while i < v.len()
        invariant
            i <= v@.len(),
            out@ == v@.take(i as int),
        decreases v@.len() - i,
    {
        out.push(v[i]);
        proof {
            assert(out@ =~= v@.take(i + 1));
        }
        i = i + 1;
    }
    proof {
        assert(v@.take(v@.len() as int) =~= v@);
    }
    out
}

fn copy_xfes(v: &Vec<XFieldElement>) -> (r: Vec<XFieldElement>)
    ensures
        r@ == v@,
{
    let mut out: Vec<XFieldElement> = Vec::new();
    let mut i: usize = 0;
    while i < v.len()
        invariant
            i <= v@.len(),
            out@ == v@.take(i as int),
        decreases v@.len() - i,
    {
        out.push(v[i]);
        proof {
            assert(out@ =~= v@.take(i + 1));
        }
        i = i + 1;
    }
    proof {
        assert(v@.take(v@.len() as int) =~= v@);
    }
    out
}

fn copy_bfe_rows(v: &Vec<Vec<BFieldElement>>) -> (r: Vec<Vec<BFieldElement>>)
    ensures
        r@.len() == v@.len(),
        forall|i: int| 0 <= i < r@.len() ==> (#[trigger] r@[i])@ == v@[i]@,
{
    let mut out: Vec<Vec<BFieldElement>> = Vec::new();
    let mut i: usize = 0;
    while i < v.len()
        invariant
            i <= v@.len(),
            out@.len() == i as nat,
            forall|k: int| 0 <= k < i ==> (#[trigger] out@[k])@ == v@[k]@,
        decreases v@.len() - i,
    {
        out.push(copy_bfes(&v[i]));
        i = i + 1;
    }
    out
}

fn copy_xfe_rows(v: &Vec<Vec<XFieldElement>>) -> (r: Vec<Vec<XFieldElement>>)
    ensures
        r@.len() == v@.len(),
        forall|i: int| 0 <= i < r@.len() ==> (#[trigger] r@[i])@ == v@[i]@,
{
    let mut out: Vec<Vec<XFieldElement>> = Vec::new();
    let mut i: usize = 0;
    while i < v.len()
        invariant
            i <= v@.len(),
            out@.len() == i as nat,
            forall|k: int| 0 <= k < i ==> (#[trigger] out@[k])@ == v@[k]@,
        decreases v@.len() - i,
    {
        out.push(copy_xfes(&v[i]));
        i = i + 1;
    }
    out
}

fn copy_path(p: &PartialAuthenticationPath) -> (r: PartialAuthenticationPath)
    ensures
        path_flat(r) == path_flat(*p),
        r.nodes@.len() == p.nodes@.len(),
        forall|i: int| 0 <= i < r.nodes@.len() ==> node_view(#[trigger] r.nodes@[i]) == node_view(
            p.nodes@[i],
        ),
{
    let mut nodes: Vec<Option<Vec<BFieldElement>>> = Vec::new();
    let mut i: usize = 0;
    while i < p.nodes.len()
        invariant
            i <= p.nodes@.len(),
            nodes@.len() == i as nat,
            forall|k: int| 0 <= k < i ==> node_view(#[trigger] nodes@[k]) == node_view(
                p.nodes@[k],
            ),
        decreases p.nodes@.len() - i,
    {
        let node = match &p.nodes[i] {
            Option::Some(v) => Option::Some(copy_bfes(v)),
            Option::None => Option::None,
        };
        nodes.push(node);
        i = i + 1;
    }
    let out = PartialAuthenticationPath { nodes };
    proof {
        assert(out.nodes@.map_values(|n: Option<Vec<BFieldElement>>| node_view(n)) =~= p.nodes@
            .map_values(|n: Option<Vec<BFieldElement>>| node_view(n)));
    }
    out
}

fn copy_paths(v: &Vec<PartialAuthenticationPath>) -> (r: Vec<PartialAuthenticationPath>)
    ensures
        r@.len() == v@.len(),
        forall|i: int| 0 <= i < r@.len() ==> path_flat(#[trigger] r@[i]) == path_flat(v@[i]),
{
    let mut out: Vec<PartialAuthenticationPath> = Vec::new();
    let mut i: usize = 0;
    while i < v.len()
        invariant
            i <= v@.len(),
            out@.len() == i as nat,
            forall|k: int| 0 <= k < i ==> path_flat(#[trigger] out@[k]) == path_flat(v@[k]),
        decreases v@.len() - i,
    {
        out.push(copy_path(&v[i]));
        i = i + 1;
    }
    out
}

fn copy_fri_proof(v: &FriProof) -> (r: FriProof)
    ensures
        r@.len() == v@.len(),
        forall|i: int|
            0 <= i < r@.len() ==> path_flat((#[trigger] r@[i]).0) == path_flat(v@[i].0) && r@[i].1
                == v@[i].1,
{
    let mut out: FriProof = Vec::new();
    let mut i: usize = 0;
    while i < v.len()
        invariant
            i <= v@.len(),
            out@.len() == i as nat,
            forall|k: int|
                0 <= k < i ==> path_flat((#[trigger] out@[k]).0) == path_flat(v@[k].0) && out@[k].1
                    == v@[k].1,
        decreases v@.len() - i,
    {
        let entry = &v[i];
        out.push((copy_path(&entry.0), entry.1));
        i = i + 1;
    }
    out
}

impl Item {
    pub fn as_compressed_authentication_paths(&self) -> (r: Result<
        CompressedAuthenticationPaths,
        ProofItemError,
    >)
        ensures
            match *self {
                Item::CompressedAuthenticationPaths(caps) => r matches Ok(v) && v@.len()
                    == caps@.len() && forall|i: int|
                    0 <= i < v@.len() ==> path_flat(#[trigger] v@[i]) == path_flat(caps@[i]),
                _ => r matches Err(e) && e.expected == ItemKind::CompressedAuthenticationPaths
                    && e.found == self.kind_spec(),
            },
    {
        match self {
            Item::CompressedAuthenticationPaths(caps) => Ok(copy_paths(caps)),
            _ => Err(
                ProofItemError {
                    expected: ItemKind::CompressedAuthenticationPaths,
                    found: self.kind(),
                },
            ),
        }
    }

    pub fn as_transposed_base_element_vectors(&self) -> (r: Result<
        Vec<Vec<BFieldElement>>,
        ProofItemError,
    >)
        ensures
            match *self {
                Item::TransposedBaseElementVectors(bss) => r matches Ok(v) && v@.len()
                    == bss@.len() && forall|i: int|
                    0 <= i < v@.len() ==> (#[trigger] v@[i])@ == bss@[i]@,
                _ => r matches Err(e) && e.expected == ItemKind::TransposedBaseElementVectors
                    && e.found == self.kind_spec(),
            },
    {
        match self {
            Item::TransposedBaseElementVectors(bss) => Ok(copy_bfe_rows(bss)),
            _ => Err(
                ProofItemError {
                    expected: ItemKind::TransposedBaseElementVectors,
                    found: self.kind(),
                },
            ),
        }
    }

    pub fn as_transposed_extension_element_vectors(&self) -> (r: Result<
        Vec<Vec<XFieldElement>>,
        ProofItemError,
    >)
        ensures
            match *self {
                Item::TransposedExtensionElementVectors(xss) => r matches Ok(v) && v@.len()
                    == xss@.len() && forall|i: int|
                    0 <= i < v@.len() ==> (#[trigger] v@[i])@ == xss@[i]@,
                _ => r matches Err(e) && e.expected == ItemKind::TransposedExtensionElementVectors
                    && e.found == self.kind_spec(),
            },
    {
        match self {
            Item::TransposedExtensionElementVectors(xss) => Ok(copy_xfe_rows(xss)),
            _ => Err(
                ProofItemError {
                    expected: ItemKind::TransposedExtensionElementVectors,
                    found: self.kind(),
                },
            ),
        }
    }

    pub fn as_merkle_root(&self) -> (r: Result<Vec<BFieldElement>, ProofItemError>)
        ensures
            match *self {
                Item::MerkleRoot(bs) => r matches Ok(v) && v@ == bs@,
                _ => r matches Err(e) && e.expected == ItemKind::MerkleRoot && e.found
                    == self.kind_spec(),
            },
    {
        match self {
            Item::MerkleRoot(bs) => Ok(copy_bfes(bs)),
            _ => Err(ProofItemError { expected: ItemKind::MerkleRoot, found: self.kind() }),
        }
    }

    pub fn as_terminals(&self) -> (r: Result<AllEndpoints, ProofItemError>)
        ensures
            match *self {
                Item::Terminals(all_endpoints) => r matches Ok(v) && v.terminals@
                    == all_endpoints.terminals@,
                _ => r matches Err(e) && e.expected == ItemKind::Terminals && e.found
                    == self.kind_spec(),
            },
    {
        match self {
            Item::Terminals(all_endpoints) => Ok(
                AllEndpoints { terminals: copy_xfes(&all_endpoints.terminals) },
            ),
            _ => Err(ProofItemError { expected: ItemKind::Terminals, found: self.kind() }),
        }
    }

    pub fn as_transposed_base_elements(&self) -> (r: Result<Vec<BFieldElement>, ProofItemError>)
        ensures
            match *self {
                Item::TransposedBaseElements(bs) => r matches Ok(v) && v@ == bs@,
                _ => r matches Err(e) && e.expected == ItemKind::TransposedBaseElements && e.found
                    == self.kind_spec(),
            },
    {
        match self {
            Item::TransposedBaseElements(bs) => Ok(copy_bfes(bs)),
            _ => Err(
                ProofItemError { expected: ItemKind::TransposedBaseElements, found: self.kind() },
            ),
        }
    }

    pub fn as_transposed_extension_elements(&self) -> (r: Result<
        Vec<XFieldElement>,
        ProofItemError,
    >)
        ensures
            match *self {
                Item::TransposedExtensionElements(xs) => r matches Ok(v) && v@ == xs@,
                _ => r matches Err(e) && e.expected == ItemKind::TransposedExtensionElements
                    && e.found == self.kind_spec(),
            },
    {
        match self {
            Item::TransposedExtensionElements(xs) => Ok(copy_xfes(xs)),
            _ => Err(
                ProofItemError {
                    expected: ItemKind::TransposedExtensionElements,
                    found: self.kind(),
                },
            ),
        }
    }

    pub fn as_authentication_path(&self) -> (r: Result<Vec<Vec<BFieldElement>>, ProofItemError>)
        ensures
            match *self {
                Item::AuthenticationPath(bss) => r matches Ok(v) && v@.len() == bss@.len()
                    && forall|i: int| 0 <= i < v@.len() ==> (#[trigger] v@[i])@ == bss@[i]@,
                _ => r matches Err(e) && e.expected == ItemKind::AuthenticationPath && e.found
                    == self.kind_spec(),
            },
    {
        match self {
            Item::AuthenticationPath(bss) => Ok(copy_bfe_rows(bss)),
            _ => Err(
                ProofItemError { expected: ItemKind::AuthenticationPath, found: self.kind() },
            ),
        }
    }

    pub fn as_revealed_combination_element(&self) -> (r: Result<XFieldElement, ProofItemError>)
        ensures
            match *self {
                Item::RevealedCombinationElement(x) => r matches Ok(v) && v == x,
                _ => r matches Err(e) && e.expected == ItemKind::RevealedCombinationElement
                    && e.found == self.kind_spec(),
            },
    {
        match self {
            Item::RevealedCombinationElement(x) => Ok(*x),
            _ => Err(
                ProofItemError {
                    expected: ItemKind::RevealedCombinationElement,
                    found: self.kind(),
                },
            ),
        }
    }

    pub fn as_revealed_combination_elements(&self) -> (r: Result<
        Vec<XFieldElement>,
        ProofItemError,
    >)
        ensures
            match *self {
                Item::RevealedCombinationElements(xs) => r matches Ok(v) && v@ == xs@,
                _ => r matches Err(e) && e.expected == ItemKind::RevealedCombinationElements
                    && e.found == self.kind_spec(),
            },
    {
        match self {
            Item::RevealedCombinationElements(xs) => Ok(copy_xfes(xs)),
            _ => Err(
                ProofItemError {
                    expected: ItemKind::RevealedCombinationElements,
                    found: self.kind(),
                },
            ),
        }
    }

    pub fn as_fri_codeword(&self) -> (r: Result<Vec<XFieldElement>, ProofItemError>)
        ensures
            match *self {
                Item::FriCodeword(xs) => r matches Ok(v) && v@ == xs@,
                _ => r matches Err(e) && e.expected == ItemKind::FriCodeword && e.found
                    == self.kind_spec(),
            },
    {
        match self {
            Item::FriCodeword(xs) => Ok(copy_xfes(xs)),
            _ => Err(ProofItemError { expected: ItemKind::FriCodeword, found: self.kind() }),
        }
    }

    pub fn as_fri_proof(&self) -> (r: Result<FriProof, ProofItemError>)
        ensures
            match *self {
                Item::FriProof(fri_proof) => r matches Ok(v) && v@.len() == fri_proof@.len()
                    && forall|i: int|
                    0 <= i < v@.len() ==> path_flat((#[trigger] v@[i]).0) == path_flat(
                        fri_proof@[i].0,
                    ) && v@[i].1 == fri_proof@[i].1,
                _ => r matches Err(e) && e.expected == ItemKind::FriProof && e.found
                    == self.kind_spec(),
            },
    {
        match self {
            Item::FriProof(fri_proof) => Ok(copy_fri_proof(fri_proof)),
            _ => Err(ProofItemError { expected: ItemKind::FriProof, found: self.kind() }),
        }
    }

    pub fn as_shared_padded_height(&self) -> (r: Result<BFieldElement, ProofItemError>)
        ensures
            match *self {
                Item::SharedPaddedHeight(shared_padded_height) => r matches Ok(v) && v
                    == shared_padded_height,
                _ => r matches Err(e) && e.expected == ItemKind::SharedPaddedHeight && e.found
                    == self.kind_spec(),
            },
    {
        match self {
            Item::SharedPaddedHeight(shared_padded_height) => Ok(*shared_padded_height),
            _ => Err(
                ProofItemError { expected: ItemKind::SharedPaddedHeight, found: self.kind() },
            ),
        }
    }
}

proof fn lemma_xfes_flat_push(xs: Seq<XFieldElement>, x: XFieldElement)
    ensures
        xfes_flat(xs.push(x)) == xfes_flat(xs) + xfe_coeffs_of(x),
{
    let f = |y: XFieldElement| xfe_coeffs_of(y);
    assert(xs.push(x).map_values(f) =~= xs.map_values(f).push(xfe_coeffs_of(x)));
    xs.map_values(f).lemma_flatten_push(xfe_coeffs_of(x));
}

proof fn lemma_rows_flat_push(rows: Seq<Vec<BFieldElement>>, v: Vec<BFieldElement>)
    ensures
        rows_flat(rows.push(v)) == rows_flat(rows) + v@,
{
    let f = |w: Vec<BFieldElement>| w@;
    assert(rows.push(v).map_values(f) =~= rows.map_values(f).push(v@));
    rows.map_values(f).lemma_flatten_push(v@);
}

proof fn lemma_xfe_rows_flat_push(xss: Seq<Vec<XFieldElement>>, xs: Vec<XFieldElement>)
    ensures
        xfe_rows_flat(xss.push(xs)) == xfe_rows_flat(xss) + xfes_flat(xs@),
{
    let f = |w: Vec<XFieldElement>| xfes_flat(w@);
    assert(xss.push(xs).map_values(f) =~= xss.map_values(f).push(xfes_flat(xs@)));
    xss.map_values(f).lemma_flatten_push(xfes_flat(xs@));
}

proof fn lemma_nodes_flat_push(ns: Seq<Option<Vec<BFieldElement>>>, n: Option<Vec<BFieldElement>>)
    ensures
        ns.push(n).map_values(|m: Option<Vec<BFieldElement>>| node_view(m)).flatten() == ns
            .map_values(|m: Option<Vec<BFieldElement>>| node_view(m)).flatten() + node_view(n),
{
    let f = |m: Option<Vec<BFieldElement>>| node_view(m);
    assert(ns.push(n).map_values(f) =~= ns.map_values(f).push(node_view(n)));
    ns.map_values(f).lemma_flatten_push(node_view(n));
}

proof fn lemma_paths_flat_push(ps: Seq<PartialAuthenticationPath>, p: PartialAuthenticationPath)
    ensures
        paths_flat(ps.push(p)) == paths_flat(ps) + path_flat(p),
{
    let f = |q: PartialAuthenticationPath| path_flat(q);
    assert(ps.push(p).map_values(f) =~= ps.map_values(f).push(path_flat(p)));
    ps.map_values(f).lemma_flatten_push(path_flat(p));
}

proof fn lemma_fri_entries_flat_push(
    es: Seq<(PartialAuthenticationPath, XFieldElement)>,
    e: (PartialAuthenticationPath, XFieldElement),
)
    ensures
        fri_entries_flat(es.push(e)) == fri_entries_flat(es) + (path_flat(e.0) + xfe_coeffs_of(
            e.1,
        )),
{
    let f = |q: (PartialAuthenticationPath, XFieldElement)| path_flat(q.0) + xfe_coeffs_of(q.1);
    assert(es.push(e).map_values(f) =~= es.map_values(f).push(path_flat(e.0) + xfe_coeffs_of(e.1)));
    es.map_values(f).lemma_flatten_push(path_flat(e.0) + xfe_coeffs_of(e.1));
}

fn flatten_xfes(xs: &Vec<XFieldElement>) -> (r: Vec<BFieldElement>)
    ensures
        r@ == xfes_flat(xs@),
        r@.len() == 3 * xs@.len(),
{
    let mut out: Vec<BFieldElement> = Vec::new();
    let mut i: usize = 0;
    proof {
        assert(xs@.take(0) =~= Seq::<XFieldElement>::empty());
        assert(xfes_flat(xs@.take(0)) =~= Seq::<BFieldElement>::empty());
    }
    while i < xs.len()
        invariant
            i <= xs@.len(),
            out@ == xfes_flat(xs@.take(i as int)),
            out@.len() == 3 * i,
        decreases xs@.len() - i,
    {
        let x = xs[i];
        let mut coeffs = xfe_coefficients(&x);
        out.append(&mut coeffs);
        proof {
            lemma_xfes_flat_push(xs@.take(i as int), xs@[i as int]);
            assert(xs@.take(i + 1) =~= xs@.take(i as int).push(xs@[i as int]));
        }
        i = i + 1;
    }
    proof {
        assert(xs@.take(xs@.len() as int) =~= xs@);
    }
    out
}

fn flatten_bfe_rows(rows: &Vec<Vec<BFieldElement>>) -> (r: Vec<BFieldElement>)
    ensures
        r@ == rows_flat(rows@),
{
    let mut out: Vec<BFieldElement> = Vec::new();
    let mut i: usize = 0;
    proof {
        assert(rows@.take(0) =~= Seq::<Vec<BFieldElement>>::empty());
        assert(rows_flat(rows@.take(0)) =~= Seq::<BFieldElement>::empty());
    }
    while i < rows.len()
        invariant
            i <= rows@.len(),
            out@ == rows_flat(rows@.take(i as int)),
        decreases rows@.len() - i,
    {
        let mut row = copy_bfes(&rows[i]);
        out.append(&mut row);
        proof {
            lemma_rows_flat_push(rows@.take(i as int), rows@[i as int]);
            assert(rows@.take(i + 1) =~= rows@.take(i as int).push(rows@[i as int]));
        }
        i = i + 1;
    }
    proof {
        assert(rows@.take(rows@.len() as int) =~= rows@);
    }
    out
}

fn flatten_xfe_rows(xss: &Vec<Vec<XFieldElement>>) -> (r: Vec<BFieldElement>)
    ensures
        r@ == xfe_rows_flat(xss@),
{
    let mut out: Vec<BFieldElement> = Vec::new();
    let mut i: usize = 0;
    proof {
        assert(xss@.take(0) =~= Seq::<Vec<XFieldElement>>::empty());
        assert(xfe_rows_flat(xss@.take(0)) =~= Seq::<BFieldElement>::empty());
    }
    while i < xss.len()
        invariant
            i <= xss@.len(),
            out@ == xfe_rows_flat(xss@.take(i as int)),
        decreases xss@.len() - i,
    {
        let mut part = flatten_xfes(&xss[i]);
        out.append(&mut part);
        proof {
            lemma_xfe_rows_flat_push(xss@.take(i as int), xss@[i as int]);
            assert(xss@.take(i + 1) =~= xss@.take(i as int).push(xss@[i as int]));
        }
        i = i + 1;
    }
    proof {
        assert(xss@.take(xss@.len() as int) =~= xss@);
    }
    out
}

fn flatten_path(p: &PartialAuthenticationPath) -> (r: Vec<BFieldElement>)
    ensures
        r@ == path_flat(*p),
{
    let ghost f = |m: Option<Vec<BFieldElement>>| node_view(m);
    let mut out: Vec<BFieldElement> = Vec::new();
    let mut i: usize = 0;
    proof {
        assert(p.nodes@.take(0) =~= Seq::<Option<Vec<BFieldElement>>>::empty());
        assert(p.nodes@.take(0).map_values(f).flatten() =~= Seq::<BFieldElement>::empty());
    }
    while i < p.nodes.len()
        invariant
            i <= p.nodes@.len(),
            f == (|m: Option<Vec<BFieldElement>>| node_view(m)),
            out@ == p.nodes@.take(i as int).map_values(f).flatten(),
        decreases p.nodes@.len() - i,
    {
        match &p.nodes[i] {
            Option::Some(v) => {
                let mut part = copy_bfes(v);
                out.append(&mut part);
            },
            Option::None => {},
        }
        proof {
            lemma_nodes_flat_push(p.nodes@.take(i as int), p.nodes@[i as int]);
            assert(p.nodes@.take(i + 1) =~= p.nodes@.take(i as int).push(p.nodes@[i as int]));
        }
        i = i + 1;
    }
    proof {
        assert(p.nodes@.take(p.nodes@.len() as int) =~= p.nodes@);
    }
    out
}

fn flatten_paths(ps: &Vec<PartialAuthenticationPath>) -> (r: Vec<BFieldElement>)
    ensures
        r@ == paths_flat(ps@),
{
    let mut out: Vec<BFieldElement> = Vec::new();
    let mut i: usize = 0;
    proof {
        assert(ps@.take(0) =~= Seq::<PartialAuthenticationPath>::empty());
        assert(paths_flat(ps@.take(0)) =~= Seq::<BFieldElement>::empty());
    }
    while i < ps.len()
        invariant
            i <= ps@.len(),
            out@ == paths_flat(ps@.take(i as int)),
        decreases ps@.len() - i,
    {
        let mut part = flatten_path(&ps[i]);
        out.append(&mut part);
        proof {
            lemma_paths_flat_push(ps@.take(i as int), ps@[i as int]);
            assert(ps@.take(i + 1) =~= ps@.take(i as int).push(ps@[i as int]));
        }
        i = i + 1;
    }
    proof {
        assert(ps@.take(ps@.len() as int) =~= ps@);
    }
    out
}

fn flatten_fri_proof(es: &FriProof) -> (r: Vec<BFieldElement>)
    ensures
        r@ == fri_entries_flat(es@),
{
    let mut out: Vec<BFieldElement> = Vec::new();
    let mut i: usize = 0;
    proof {
        assert(es@.take(0) =~= Seq::<(PartialAuthenticationPath, XFieldElement)>::empty());
        assert(fri_entries_flat(es@.take(0)) =~= Seq::<BFieldElement>::empty());
    }
    while i < es.len()
        invariant
            i <= es@.len(),
            out@ == fri_entries_flat(es@.take(i as int)),
        decreases es@.len() - i,
    {
        let entry = &es[i];
        let mut part = flatten_path(&entry.0);
        out.append(&mut part);
        let mut value_part = xfe_coefficients(&entry.1);
        out.append(&mut value_part);
        proof {
            lemma_fri_entries_flat_push(es@.take(i as int), es@[i as int]);
            assert(es@.take(i + 1) =~= es@.take(i as int).push(es@[i as int]));
        }
        i = i + 1;
    }
    proof {
        assert(es@.take(es@.len() as int) =~= es@);
    }
    out
}

impl Item {
    /// Flatten this item into its canonical transcript form: the sequence of
    /// base-field elements the transcript hash absorbs. A pure function of
    /// the payload; the output length is a function of the payload shape
    /// alone.
    pub fn flatten(self) -> (r: Vec<BFieldElement>)
        ensures
            r@ == self.flatten_spec(),
            self matches Item::MerkleRoot(bs) ==> r@ == bs@,
            self matches Item::RevealedCombinationElement(_) ==> r@.len() == 3,
            self matches Item::TransposedExtensionElements(xs) ==> r@.len() == 3 * xs@.len(),
            self matches Item::FriCodeword(xs) ==> r@.len() == 3 * xs@.len(),
            self matches Item::SharedPaddedHeight(_) ==> r@.len() == 1,
    {
        match self {
            Item::MerkleRoot(bs) => bs,
            Item::Terminals(all_endpoints) => flatten_xfes(&all_endpoints.terminals),
            Item::TransposedBaseElements(bs) => bs,
            Item::TransposedExtensionElements(xs) => flatten_xfes(&xs),
            Item::AuthenticationPath(bss) => flatten_bfe_rows(&bss),
            Item::RevealedCombinationElement(x) => xfe_coefficients(&x),
            Item::FriCodeword(xs) => flatten_xfes(&xs),
            Item::RevealedCombinationElements(xs) => flatten_xfes(&xs),
            Item::FriProof(fri_proof) => flatten_fri_proof(&fri_proof),
            Item::CompressedAuthenticationPaths(paths) => flatten_paths(&paths),
            Item::TransposedBaseElementVectors(bss) => flatten_bfe_rows(&bss),
            Item::TransposedExtensionElementVectors(xss) => flatten_xfe_rows(&xss),
            Item::SharedPaddedHeight(shared_padded_height) => {
                let mut out: Vec<BFieldElement> = Vec::new();
                out.push(shared_padded_height);
                proof {
                    assert(out@ =~= seq![shared_padded_height]);
                }
                out
            },
        }
    }
}

} // verus!
