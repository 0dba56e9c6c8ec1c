//! Syntax-tree model: symbol identity, list nodes with the proper/improper
//! discipline, the list builder, and reification of literal syntax into
//! runtime data.

use vstd::prelude::*;

use crate::types::{datum_eq, new_symbol, pair_chain, ListFactory, SchemeObject, SchemeType};

verus! {

/// One of the fixed, closed set of reserved names that the compiler pass
/// recognizes structurally.
#[derive(Copy, Clone, Debug, PartialEq, Eq, Hash, Structural)]
pub enum CoreSymbol {
    And,
    Begin,
    Or,
    Let,
    LetRec,
    LetStar,
    Lambda,
    If,
    SetVar,
    Error,
    Quote,
    BeginProgram,
    GenUnspecified,
}

/// The fixed printed name of each reserved symbol, as a sequence of
/// characters.
pub open spec fn core_name(c: CoreSymbol) -> Seq<char> {
    match c {
        CoreSymbol::And => "and"@,
        CoreSymbol::Begin => "begin"@,
        CoreSymbol::Or => "or"@,
        CoreSymbol::Let => "let"@,
        CoreSymbol::LetRec => "letrec"@,
        CoreSymbol::LetStar => "let*"@,
        CoreSymbol::Lambda => "lambda"@,
        CoreSymbol::If => "if"@,
        CoreSymbol::SetVar => "set"@,
        CoreSymbol::Error => "error"@,
        CoreSymbol::Quote => "quote"@,
        CoreSymbol::BeginProgram => "$begin-program"@,
        CoreSymbol::GenUnspecified => "$gen_unspecified"@,
    }
}

impl CoreSymbol {
    /// Look up the fixed printed name of this reserved symbol.
    pub fn get_name(self) -> (r: &'static str)
        ensures
            r@ == core_name(self),
    {
        match self {
            CoreSymbol::And => "and",
            CoreSymbol::Begin => "begin",
            CoreSymbol::Or => "or",
            CoreSymbol::Let => "let",
            CoreSymbol::LetRec => "letrec",
            CoreSymbol::LetStar => "let*",
            CoreSymbol::Lambda => "lambda",
            CoreSymbol::If => "if",
            CoreSymbol::SetVar => "set",
            CoreSymbol::Error => "error",
            CoreSymbol::Quote => "quote",
            CoreSymbol::BeginProgram => "$begin-program",
            CoreSymbol::GenUnspecified => "$gen_unspecified",
        }
    }
}

/// The decimal digit character for a single digit value.
pub open spec fn dec_digit_char(d: int) -> char {
    if d == 0 {
        '0'
    } else if d == 1 {
        '1'
    } else if d == 2 {
        '2'
    } else if d == 3 {
        '3'
    } else if d == 4 {
        '4'
    } else if d == 5 {
        '5'
    } else if d == 6 {
        '6'
    } else if d == 7 {
        '7'
    } else if d == 8 {
        '8'
    } else {
        '9'
    }
}

/// The decimal rendering of a non-negative integer, most significant digit
/// first, with no leading zeros (except for zero itself).
pub open spec fn dec_rep(n: int) -> Seq<char>
    recommends
        n >= 0,
    decreases n,
{
    if n < 10 {
        seq![dec_digit_char(n)]
    } else {
        dec_rep(n / 10).push(dec_digit_char(n % 10))
    }
}

/// The synthesized printed name of a generated symbol with the given counter
/// value.
pub open spec fn temp_name(id: u64) -> Seq<char> {
    "$temp$id"@ + dec_rep(id as int)
}

/// A symbol's identity: one of the three disjoint origins. Two symbols are
/// equal exactly when origin and payload agree.
pub enum SymbolView {
    Core(CoreSymbol),
    Temp(u64),
    Defined(Seq<char>),
}

/// The printed name of a symbol with the given identity.
pub open spec fn symbol_name(v: SymbolView) -> Seq<char> {
    match v {
        SymbolView::Core(c) => core_name(c),
        SymbolView::Temp(id) => temp_name(id),
        SymbolView::Defined(name) => name,
    }
}

#[derive(Clone, Debug, Hash)]
enum AstSymbolInner {
    Core(CoreSymbol),
    Temp(u64),
    Defined(String),
}

/// An identifier in the syntax tree: a reserved name, a generated
/// (hygienic) name, or a user-defined spelling.
#[derive(Clone, Debug, Hash)]
pub struct AstSymbol(AstSymbolInner);

impl View for AstSymbol {
    type V = SymbolView;

    closed spec fn view(&self) -> SymbolView {
        match self.0 {
            AstSymbolInner::Core(c) => SymbolView::Core(c),
            AstSymbolInner::Temp(id) => SymbolView::Temp(id),
            AstSymbolInner::Defined(name) => SymbolView::Defined(name@),
        }
    }
}

impl PartialEq for AstSymbol {
    fn eq(&self, other: &Self) -> bool {
        match (&self.0, &other.0) {
            (AstSymbolInner::Core(a), AstSymbolInner::Core(b)) => a == b,
            (AstSymbolInner::Temp(a), AstSymbolInner::Temp(b)) => a == b,
            (AstSymbolInner::Defined(a), AstSymbolInner::Defined(b)) => *a == *b,
            _ => false,
        }
    }
}

impl vstd::std_specs::cmp::PartialEqSpecImpl for AstSymbol {
    open spec fn obeys_eq_spec() -> bool {
        true
    }

    open spec fn eq_spec(&self, other: &AstSymbol) -> bool {
        self@ == other@
    }
}

impl Eq for AstSymbol {}

/// The process-wide source of generated-symbol identities. Every generated
/// symbol drawn from one counter is distinct from every other one drawn from
/// it, because the count never repeats.
pub struct TempCounter {
    count: u64,
}

impl TempCounter {
    /// The next counter value this source will hand out.
    pub closed spec fn count(&self) -> u64 {
        self.count
    }

    /// A fresh source whose first generated identity is numbered zero.
    pub fn new() -> (r: TempCounter)
        ensures
            r.count() == 0,
    {
        TempCounter { count: 0 }
    }
}

impl AstSymbol {
    /// A user-defined symbol with the given spelling.
    pub fn new(name: &str) -> (r: AstSymbol)
        ensures
            r@ == SymbolView::Defined(name@),
    {
        AstSymbol(AstSymbolInner::Defined(name.to_owned()))
    }

    /// A generated symbol, distinct from every other symbol this counter has
    /// produced or will produce, and from every core or user-defined symbol.
    pub fn gen_temp(counter: &mut TempCounter) -> (r: AstSymbol)
        requires
            old(counter).count() < u64::MAX,
        ensures
            r@ == SymbolView::Temp(old(counter).count()),
            final(counter).count() == old(counter).count() + 1,
    {
        let count: u64 = counter.count;
        counter.count = counter.count + 1;
        AstSymbol(AstSymbolInner::Temp(count))
    }

    /// A core symbol, carrying the given reserved name.
    pub fn from_core(core: CoreSymbol) -> (r: AstSymbol)
        ensures
            r@ == SymbolView::Core(core),
    {
        AstSymbol(AstSymbolInner::Core(core))
    }

    /// The printed name of this symbol. Note that a generated symbol's
    /// synthesized name may collide with a user-defined spelling; the
    /// identities stay distinct even then.
    pub fn get_name(&self) -> (r: String)
        ensures
            r@ == symbol_name(self@),
    {
        match &self.0 {
            AstSymbolInner::Core(core) => core.get_name().to_owned(),
            AstSymbolInner::Temp(id) => {
                let mut name = "$temp$id".to_owned();
                push_dec_digits(&mut name, *id);
                name
            },
            AstSymbolInner::Defined(name) => name.clone(),
        }
    }
}

/// The decimal digit character for a single digit value, as executable code.
fn dec_digit(d: u64) -> (r: char)
    requires
        d < 10,
    ensures
        r == dec_digit_char(d as int),
{
    if d == 0 {
        '0'
    } else if d == 1 {
        '1'
    } else if d == 2 {
        '2'
    } else if d == 3 {
        '3'
    } else if d == 4 {
        '4'
    } else if d == 5 {
        '5'
    } else if d == 6 {
        '6'
    } else if d == 7 {
        '7'
    } else if d == 8 {
        '8'
    } else {
        '9'
    }
}

/// Appends the decimal rendering of `n` to `s`.
fn push_dec_digits(s: &mut String, n: u64)
    ensures
        final(s)@ == old(s)@ + dec_rep(n as int),
    decreases n,
{
    if n >= 10 {
        push_dec_digits(s, n / 10);
    }
    let d = dec_digit(n % 10);
    s.push(d);
    proof {
        assert(s@ =~= old(s)@ + dec_rep(n as int));
    }
}

/// States the identity discipline of generated symbols: distinct counter
/// values give distinct symbols, and a generated symbol is never equal to a
/// core or user-defined symbol, whatever their printed names.
pub proof fn lemma_temp_symbol_identity(i: u64, j: u64, c: CoreSymbol, name: Seq<char>)
    ensures
        i != j ==> SymbolView::Temp(i) != SymbolView::Temp(j),
        SymbolView::Temp(i) != SymbolView::Core(c),
        SymbolView::Temp(i) != SymbolView::Defined(name),
{
}

// ---------------------------------------------------------------------------
// The tree and its mathematical shape.
// ---------------------------------------------------------------------------

/// The value of a leaf: a number, a symbol identity, the raw text of a
/// string, or a boolean.
pub enum LeafView {
    Number(i64),
    Symbol(SymbolView),
    Str(Seq<char>),
    Bool(bool),
}

/// The shape of a list node: its children in order, and its termination
/// tag — `None` for a proper list (it ends in the empty list), `Some(leaf)`
/// for an improper list ending in that leaf. An improper tail is never
/// itself a list.
pub struct ListView {
    pub elems: Seq<NodeView>,
    pub tail: Option<LeafView>,
}

/// The mathematical value of a syntax-tree node.
pub enum NodeView {
    Leaf(LeafView),
    List(ListView),
}

#[derive(Debug, PartialEq, Clone, Hash)]
enum AstNodeNonList {
    Number(i64),
    Symbol(AstSymbol),
    Str(String),
    Bool(bool),
}

impl View for AstNodeNonList {
    type V = LeafView;

    closed spec fn view(&self) -> LeafView {
        match self {
            AstNodeNonList::Number(n) => LeafView::Number(*n),
            AstNodeNonList::Symbol(s) => LeafView::Symbol(s@),
            AstNodeNonList::Str(s) => LeafView::Str(s@),
            AstNodeNonList::Bool(b) => LeafView::Bool(*b),
        }
    }
}

#[derive(Debug, PartialEq)]
enum ListType {
    Proper,
    Improper(AstNodeNonList),
}

/// A list node: an ordered sequence of children and a termination tag,
/// proper or improper. Nodes are immutable once built.
#[derive(Debug, PartialEq)]
pub struct AstList {
    nodes: Vec<AstNode>,
    list_type: ListType,
}

#[derive(Debug, PartialEq)]
enum AstNodeInner {
    List(AstList),
    NonList(AstNodeNonList),
}

/// One node of the syntax tree: a list or a leaf.
#[derive(Debug, PartialEq)]
pub struct AstNode(AstNodeInner);

/// The values of a sequence of nodes, in order.
pub open spec fn node_views(nodes: Seq<AstNode>) -> Seq<NodeView>
    decreases nodes,
{
    if nodes.len() == 0 {
        Seq::empty()
    } else {
        seq![nodes[0]@] + node_views(nodes.drop_first())
    }
}

/// The values of a sequence of nodes are exactly the values of its
/// elements, position by position.
pub proof fn lemma_node_views(nodes: Seq<AstNode>)
    ensures
        node_views(nodes).len() == nodes.len(),
        forall|i: int| 0 <= i < nodes.len() ==> node_views(nodes)[i] == nodes[i]@,
    decreases nodes.len(),
{
    if nodes.len() > 0 {
        lemma_node_views(nodes.drop_first());
        assert(node_views(nodes) == seq![nodes[0]@] + node_views(nodes.drop_first()));
        assert forall|i: int| 0 <= i < nodes.len() implies #[trigger] node_views(nodes)[i]
            == nodes[i]@ by {
            if i > 0 {
                assert(node_views(nodes)[i] == node_views(nodes.drop_first())[i - 1]);
                assert(nodes.drop_first()[i - 1] == nodes[i]);
            }
        }
    }
}

impl View for AstList {
    type V = ListView;

    closed spec fn view(&self) -> ListView
        decreases self,
    {
        ListView {
            elems: node_views(self.nodes@),
            tail: match &self.list_type {
                ListType::Proper => None,
                ListType::Improper(leaf) => Some(leaf@),
            },
        }
    }
}

impl View for AstNode {
    type V = NodeView;

    closed spec fn view(&self) -> NodeView
        decreases self,
    {
        match &self.0 {
            AstNodeInner::List(list) => NodeView::List(list@),
            AstNodeInner::NonList(leaf) => NodeView::Leaf(leaf@),
        }
    }
}

/// The node a termination tag stands for on its own: the empty proper list
/// for `None`, the tail leaf for `Some`.
pub open spec fn tail_as_node(tail: Option<LeafView>) -> NodeView {
    match tail {
        None => NodeView::List(ListView { elems: Seq::empty(), tail: None }),
        Some(leaf) => NodeView::Leaf(leaf),
    }
}

/// The node holding a given list.
pub closed spec fn node_of_list(list: AstList) -> AstNode {
    AstNode(AstNodeInner::List(list))
}

impl ListType {
    fn is_proper_list(&self) -> (b: bool)
        ensures
            b == !(self is Improper),
    {
        !self.is_improper_list()
    }

    fn is_improper_list(&self) -> (b: bool)
        ensures
            b == (self is Improper),
    {
        if let ListType::Improper(_) = self {
            true
        } else {
            false
        }
    }

    fn into_node(self) -> (r: AstNode)
        ensures
            self matches ListType::Proper ==> r@ == tail_as_node(None),
            self matches ListType::Improper(leaf) ==> r@ == tail_as_node(Some(leaf@)),
    {
        match self {
            ListType::Proper => AstNode(AstNodeInner::List(AstList::none())),
            ListType::Improper(x) => AstNode(AstNodeInner::NonList(x)),
        }
    }

    /// The datum the termination tag reifies to: the runtime's empty-list
    /// sentinel for a proper list, the reified tail leaf otherwise.
    fn to_datum(&self) -> (r: SchemeType)
        ensures
            self matches ListType::Proper ==> r == SchemeType::Object(SchemeObject::EmptyList),
            self matches ListType::Improper(leaf) ==> is_leaf_datum(r, leaf@),
    {
        match self {
            ListType::Proper => SchemeType::Object(SchemeObject::EmptyList),
            ListType::Improper(node) => leaf_datum(node),
        }
    }
}

impl AstList {
    /// The empty proper list.
    pub fn none() -> (r: AstList)
        ensures
            r@.elems == Seq::<NodeView>::empty(),
            r@.tail is None,
    {
        let r = AstList { nodes: Vec::new(), list_type: ListType::Proper };
        proof {
            assert(r@.elems =~= Seq::<NodeView>::empty());
        }
        r
    }

    /// The proper list holding exactly one node.
    pub fn one(node: AstNode) -> (r: AstList)
        ensures
            r@.elems == seq![node@],
            r@.tail is None,
    {
        let ghost v = node@;
        let mut nodes: Vec<AstNode> = Vec::new();
        nodes.push(node);
        let r = AstList { nodes, list_type: ListType::Proper };
        proof {
            lemma_node_views(r.nodes@);
            assert(r@.elems =~= seq![v]);
        }
        r
    }

    /// Whether this list is proper: it terminates in the empty list.
    pub fn is_proper_list(&self) -> (b: bool)
        ensures
            b == (self@.tail is None),
    {
        self.list_type.is_proper_list()
    }

    /// Whether this list is the empty proper list.
    pub fn is_empty_list(&self) -> (b: bool)
        ensures
            b == (self@.tail is None && self@.elems.len() == 0),
    {
        proof {
            lemma_node_views(self.nodes@);
        }
        self.is_proper_list() && self.nodes.is_empty()
    }

    /// Whether this list is improper: it terminates in a leaf.
    pub fn is_improper_list(&self) -> (b: bool)
        ensures
            b == (self@.tail is Some),
    {
        self.list_type.is_improper_list()
    }

    /// The children of this list, in order.
    pub fn as_nodes(&self) -> (r: &[AstNode])
        ensures
            node_views(r@) == self@.elems,
    {
        self.nodes.as_slice()
    }

    /// Takes this list apart: its children, and the node its termination
    /// tag stands for.
    pub fn into_inner(self) -> (r: (Vec<AstNode>, AstNode))
        ensures
            node_views(r.0@) == self@.elems,
            r.1@ == tail_as_node(self@.tail),
    {
        let AstList { nodes, list_type } = self;
        (nodes, list_type.into_node())
    }

    /// The proper list over the given nodes.
    pub fn from_nodes(list: Vec<AstNode>) -> (r: AstList)
        ensures
            r@.elems == node_views(list@),
            r@.tail is None,
    {
        AstList { nodes: list, list_type: ListType::Proper }
    }
}

// ---------------------------------------------------------------------------
// The list builder.
// ---------------------------------------------------------------------------

/// What building with an explicit tail yields: a leaf tail makes the
/// accumulated children an improper list ending in that leaf; a list tail
/// splices its own children onto the accumulated ones and keeps its own
/// termination tag. The one failure: nothing accumulated and an improper
/// tail — two dotted chains cannot be spliced with no element between.
pub open spec fn spec_build_with_tail(items: Seq<NodeView>, tail: NodeView) -> Option<ListView> {
    match tail {
        NodeView::Leaf(leaf) => Some(ListView { elems: items, tail: Some(leaf) }),
        NodeView::List(lv) => if items.len() == 0 && lv.tail is Some {
            None
        } else {
            Some(ListView { elems: items + lv.elems, tail: lv.tail })
        },
    }
}

/// A mutable accumulator for building list nodes child by child.
pub struct AstListBuilder {
    nodes: Vec<AstNode>,
}

impl AstListBuilder {
    /// The values of the children accumulated so far, in order.
    pub closed spec fn items(&self) -> Seq<NodeView> {
        node_views(self.nodes@)
    }

    /// An empty accumulator.
    pub fn new() -> (r: AstListBuilder)
        ensures
            r.items() == Seq::<NodeView>::empty(),
    {
        let r = AstListBuilder { nodes: Vec::new() };
        proof {
            assert(r.items() =~= Seq::<NodeView>::empty());
        }
        r
    }

    /// Appends one child to the list under construction.
    pub fn push(&mut self, node: AstNode)
        ensures
            final(self).items() == old(self).items().push(node@),
    {
        let ghost v = node@;
        self.nodes.push(node);
        proof {
            lemma_node_views(old(self).nodes@);
            lemma_node_views(self.nodes@);
            assert(self.items() =~= old(self).items().push(v));
        }
    }

    fn build_with_type(self, list_type: ListType) -> (r: AstList)
        ensures
            r@.elems == self.items(),
            list_type matches ListType::Proper ==> r@.tail is None,
            list_type matches ListType::Improper(leaf) ==> r@.tail == Some(leaf@),
    {
        AstList { nodes: self.nodes, list_type }
    }

    /// The accumulated children as a proper list. Always succeeds.
    pub fn build(self) -> (r: AstList)
        ensures
            r@.elems == self.items(),
            r@.tail is None,
    {
        self.build_with_type(ListType::Proper)
    }

    /// The accumulated children closed off with an explicit tail node, as
    /// `spec_build_with_tail` describes. On the one failing case the tail
    /// node is handed back unchanged.
    pub fn build_with_tail(self, node: AstNode) -> (r: Result<AstList, AstNode>)
        ensures
            match r {
                Ok(l) => spec_build_with_tail(self.items(), node@) == Some(l@),
                Err(n) => n == node && spec_build_with_tail(self.items(), node@) is None,
            },
    {
        let AstListBuilder { mut nodes } = self;
        let ghost items = node_views(nodes@);
        match node {
            AstNode(AstNodeInner::List(list)) => {
                if nodes.len() == 0 && list.is_improper_list() {
                    return Err(AstNode(AstNodeInner::List(list)));
                }
                let ghost tail_view = list@;
                let ghost pre = nodes@;
                let AstList { nodes: mut tail_nodes, list_type } = list;
                let ghost tn = tail_nodes@;
                nodes.append(&mut tail_nodes);
                let r = AstListBuilder { nodes }.build_with_type(list_type);
                proof {
                    lemma_node_views(pre);
                    lemma_node_views(tn);
                    lemma_node_views(nodes@);
                    assert(r@.elems =~= items + tail_view.elems);
                }
                Ok(r)
            },
            AstNode(AstNodeInner::NonList(leaf)) => {
                let r = AstListBuilder { nodes }.build_with_type(ListType::Improper(leaf));
                Ok(r)
            },
        }
    }
}

// ---------------------------------------------------------------------------
// Laws of the builder.
// ---------------------------------------------------------------------------

/// Law: appending a proper-list tail splices — the children accumulate in
/// order and the result is proper, exactly as if all the children had been
/// pushed into one builder directly.
pub proof fn lemma_build_with_tail_splice(items: Seq<NodeView>, tail_elems: Seq<NodeView>)
    ensures
        spec_build_with_tail(items, NodeView::List(ListView { elems: tail_elems, tail: None }))
            == Some(ListView { elems: items + tail_elems, tail: None::<LeafView> }),
{
}

/// Law: building with a tail fails exactly when the accumulator is empty
/// and the tail is itself an improper list; a proper-list tail or a leaf
/// tail always succeeds, whatever was accumulated.
pub proof fn lemma_build_with_tail_failure(items: Seq<NodeView>, tail: NodeView)
    ensures
        spec_build_with_tail(items, tail) is None <==> (items.len() == 0 && (
        tail matches NodeView::List(lv) && lv.tail is Some)),
{
}

// ---------------------------------------------------------------------------
// Reification: syntax as runtime data.
// ---------------------------------------------------------------------------

/// `d` is the runtime datum of the leaf `l`: numbers, strings and booleans
/// reify to the corresponding runtime scalar, and a symbol reifies to the
/// runtime's interned symbol for its printed name.
pub open spec fn is_leaf_datum(d: SchemeType, l: LeafView) -> bool {
    match l {
        LeafView::Number(x) => d == SchemeType::Number(x),
        LeafView::Symbol(sv) => d matches SchemeType::Object(SchemeObject::Symbol(name))
            && name@ == symbol_name(sv),
        LeafView::Str(text) => d matches SchemeType::String(s) && s@ == text,
        LeafView::Bool(b) => d == if b {
            SchemeType::Object(SchemeObject::True)
        } else {
            SchemeType::Object(SchemeObject::False)
        },
    }
}

/// `d` is the runtime datum of the node `n`: leaves reify as
/// `is_leaf_datum` says, and a list reifies to the nested-pair encoding of
/// its reified children, ending in the empty-list sentinel or in the
/// reified tail leaf.
pub open spec fn is_datum_of(d: SchemeType, n: NodeView) -> bool
    decreases n,
{
    match n {
        NodeView::Leaf(l) => is_leaf_datum(d, l),
        NodeView::List(lv) => is_list_datum(d, lv.elems, lv.tail),
    }
}

/// `d` is the chain of immutable pairs holding the data of `elems` in
/// order and ending in the empty list (`tail` is `None`) or in the datum of
/// the tail leaf.
pub open spec fn is_list_datum(d: SchemeType, elems: Seq<NodeView>, tail: Option<LeafView>) -> bool
    decreases elems,
{
    if elems.len() == 0 {
        match tail {
            None => d == SchemeType::Object(SchemeObject::EmptyList),
            Some(l) => is_leaf_datum(d, l),
        }
    } else {
        &&& d matches SchemeType::Object(SchemeObject::Pair { mutable, car, cdr })
        &&& !mutable
        &&& is_datum_of(*car, elems[0])
        &&& is_list_datum(*cdr, elems.drop_first(), tail)
    }
}

/// The datum of a leaf, built without touching the tree.
fn leaf_datum(leaf: &AstNodeNonList) -> (r: SchemeType)
    ensures
        is_leaf_datum(r, leaf@),
{
    match leaf {
        AstNodeNonList::Number(x) => SchemeType::Number(*x),
        AstNodeNonList::Symbol(sym) => SchemeType::Object(new_symbol(sym.get_name())),
        AstNodeNonList::Str(stri) => SchemeType::String(stri.clone()),
        AstNodeNonList::Bool(is_true) => SchemeType::from_bool(*is_true),
    }
}

/// A pair chain over data of the children, ended as the tag asks, is the
/// list's datum.
proof fn lemma_chain_datum(
    d: SchemeType,
    items: Seq<SchemeType>,
    elems: Seq<NodeView>,
    dt: SchemeType,
    tail: Option<LeafView>,
)
    requires
        pair_chain(d, items, dt, false),
        items.len() == elems.len(),
        forall|i: int| 0 <= i < items.len() ==> is_datum_of(items[i], elems[i]),
        match tail {
            None => dt == SchemeType::Object(SchemeObject::EmptyList),
            Some(l) => is_leaf_datum(dt, l),
        },
    ensures
        is_list_datum(d, elems, tail),
    decreases items.len(),
{
    if items.len() > 0 {
        assert forall|i: int| 0 <= i < items.drop_first().len() implies is_datum_of(
            #[trigger] items.drop_first()[i],
            elems.drop_first()[i],
        ) by {
            assert(items.drop_first()[i] == items[i + 1]);
            assert(elems.drop_first()[i] == elems[i + 1]);
        }
        lemma_chain_datum(pair_chain_cdr(d), items.drop_first(), elems.drop_first(), dt, tail);
    }
}

/// The second slot of the head pair of a chain, where there is one.
spec fn pair_chain_cdr(d: SchemeType) -> SchemeType {
    match d {
        SchemeType::Object(SchemeObject::Pair { mutable, car, cdr }) => *cdr,
        _ => d,
    }
}

proof fn lemma_leaf_datum_unique(l: LeafView, d1: SchemeType, d2: SchemeType)
    requires
        is_leaf_datum(d1, l),
        is_leaf_datum(d2, l),
    ensures
        datum_eq(d1, d2),
{
}

/// Law: reification is a function of the tree. Any two runtime data of the
/// same node are deeply equal, so reifying a node twice — or reifying two
/// structurally equal nodes — gives equivalent values.
pub proof fn lemma_datum_unique(n: NodeView, d1: SchemeType, d2: SchemeType)
    requires
        is_datum_of(d1, n),
        is_datum_of(d2, n),
    ensures
        datum_eq(d1, d2),
    decreases n,
{
    match n {
        NodeView::Leaf(l) => {
            lemma_leaf_datum_unique(l, d1, d2);
        },
        NodeView::List(lv) => {
            lemma_list_datum_unique(lv.elems, lv.tail, d1, d2);
        },
    }
}

proof fn lemma_list_datum_unique(
    elems: Seq<NodeView>,
    tail: Option<LeafView>,
    d1: SchemeType,
    d2: SchemeType,
)
    requires
        is_list_datum(d1, elems, tail),
        is_list_datum(d2, elems, tail),
    ensures
        datum_eq(d1, d2),
    decreases elems,
{
    if elems.len() == 0 {
        match tail {
            None => {
            },
            Some(l) => {
                lemma_leaf_datum_unique(l, d1, d2);
            },
        }
    } else {
        match (d1, d2) {
            (
                SchemeType::Object(SchemeObject::Pair { mutable: m1, car: c1, cdr: r1 }),
                SchemeType::Object(SchemeObject::Pair { mutable: m2, car: c2, cdr: r2 }),
            ) => {
                lemma_datum_unique(elems[0], *c1, *c2);
                lemma_list_datum_unique(elems.drop_first(), tail, *r1, *r2);
            },
            _ => {
                assert(false);
            },
        }
    }
}

impl AstNode {
    fn from_non_list(non_list: AstNodeNonList) -> (r: AstNode)
        ensures
            r@ == NodeView::Leaf(non_list@),
    {
        AstNode(AstNodeInner::NonList(non_list))
    }

    /// The leaf node holding a number.
    pub fn from_number(number: i64) -> (r: AstNode)
        ensures
            r@ == NodeView::Leaf(LeafView::Number(number)),
    {
        Self::from_non_list(AstNodeNonList::Number(number))
    }

    /// The leaf node holding an owned string.
    pub fn from_string(string: String) -> (r: AstNode)
        ensures
            r@ == NodeView::Leaf(LeafView::Str(string@)),
    {
        Self::from_non_list(AstNodeNonList::Str(string))
    }

    /// The leaf node holding a boolean.
    pub fn from_bool(boolean: bool) -> (r: AstNode)
        ensures
            r@ == NodeView::Leaf(LeafView::Bool(boolean)),
    {
        Self::from_non_list(AstNodeNonList::Bool(boolean))
    }

    /// The leaf node holding a symbol.
    pub fn from_symbol(sym: AstSymbol) -> (r: AstNode)
        ensures
            r@ == NodeView::Leaf(LeafView::Symbol(sym@)),
    {
        Self::from_non_list(AstNodeNonList::Symbol(sym))
    }

    /// The leaf node holding a core symbol.
    pub fn from_core(sym: CoreSymbol) -> (r: AstNode)
        ensures
            r@ == NodeView::Leaf(LeafView::Symbol(SymbolView::Core(sym))),
    {
        Self::from_symbol(AstSymbol::from_core(sym))
    }

    /// The node holding a list.
    pub fn from_list(list: AstList) -> (r: AstNode)
        ensures
            r@ == NodeView::List(list@),
            r == node_of_list(list),
    {
        AstNode(AstNodeInner::List(list))
    }

    /// The node holding the proper list over the given children.
    pub fn from_nodes(list: Vec<AstNode>) -> (r: AstNode)
        ensures
            r@ == NodeView::List(ListView { elems: node_views(list@), tail: None }),
    {
        Self::from_list(AstList::from_nodes(list))
    }

    /// Reifies this node into the runtime's quoted-value representation:
    /// the datum a reader would have produced for the same literal text.
    #[verifier::loop_isolation(false)]
    pub fn to_datum(&self) -> (r: SchemeType)
        ensures
            is_datum_of(r, self@),
        decreases self,
    {
        match &self.0 {
            AstNodeInner::NonList(leaf) => leaf_datum(leaf),
            AstNodeInner::List(list) => {
                let mut builder = ListFactory::new(false);
                let n: usize = list.nodes.len();
                let mut k: usize = 0;
                while k < n
                    invariant
                        n == list.nodes@.len(),
                        k <= n,
                        !builder.is_mutable(),
                        builder.items().len() == k,
                        forall|j: int|
                            0 <= j < k ==> is_datum_of(
                                #[trigger] builder.items()[j],
                                node_views(list.nodes@)[j],
                            ),
                    decreases n - k,
                {
                    proof {
                        lemma_node_views(list.nodes@);
                        assert(decreases_to!(*self => (*self).0));
                        assert(decreases_to!((*self).0 => (*self).0->List_0));
                        assert((*self).0->List_0 == *list);
                        assert(decreases_to!(*list => list.nodes));
                        assert(decreases_to!(list.nodes => list.nodes@));
                        assert(decreases_to!(list.nodes@ => list.nodes@[k as int]));
                        assert(decreases_to!(*self => list.nodes@[k as int]));
                    }
                    let d = list.nodes[k].to_datum();
                    builder.push(d);
                    k = k + 1;
                }
                let t = list.list_type.to_datum();
                let ghost items = builder.items();
                let r = builder.build_with_tail(t);
                proof {
                    lemma_node_views(list.nodes@);
                    lemma_chain_datum(r, items, list@.elems, t, list@.tail);
                }
                r
            },
        }
    }

    /// This node's list, by reference, if it is one.
    pub fn as_list(&self) -> (r: Option<&AstList>)
        ensures
            match r {
                Some(l) => self@ == NodeView::List(l@),
                None => !(self@ is List),
            },
    {
        if let AstNodeInner::List(list) = &self.0 {
            Some(list)
        } else {
            None
        }
    }

    /// This node's children, by reference, if it is a proper list.
    pub fn as_proper_list(&self) -> (r: Option<&[AstNode]>)
        ensures
            match r {
                Some(ns) => self@ matches NodeView::List(lv) && lv.tail is None && node_views(
                    ns@,
                ) == lv.elems,
                None => !(self@ matches NodeView::List(lv) && lv.tail is None),
            },
    {
        match self.as_list() {
            Some(list) => if list.is_proper_list() {
                Some(list.as_nodes())
            } else {
                None
            },
            None => None,
        }
    }

    /// This node's symbol, by reference, if it is one.
    pub fn as_symbol(&self) -> (r: Option<&AstSymbol>)
        ensures
            match r {
                Some(s) => self@ == NodeView::Leaf(LeafView::Symbol(s@)),
                None => !(self@ matches NodeView::Leaf(l) && l is Symbol),
            },
    {
        if let AstNodeInner::NonList(AstNodeNonList::Symbol(sym)) = &self.0 {
            Some(sym)
        } else {
            None
        }
    }

    /// Extracts this node's symbol; any other node comes back unchanged as
    /// the error payload.
    pub fn into_symbol(self) -> (r: Result<AstSymbol, AstNode>)
        ensures
            match r {
                Ok(s) => self@ == NodeView::Leaf(LeafView::Symbol(s@)),
                Err(n) => n == self && !(self@ matches NodeView::Leaf(l) && l is Symbol),
            },
    {
        match self {
            AstNode(AstNodeInner::NonList(AstNodeNonList::Symbol(sym))) => Ok(sym),
            other => Err(other),
        }
    }

    /// Extracts this node's list; any other node comes back unchanged as
    /// the error payload.
    pub fn into_list(self) -> (r: Result<AstList, AstNode>)
        ensures
            match r {
                Ok(l) => self@ == NodeView::List(l@) && self == node_of_list(l),
                Err(n) => n == self && !(self@ is List),
            },
    {
        match self {
            AstNode(AstNodeInner::List(list)) => Ok(list),
            other => Err(other),
        }
    }

    /// Extracts this node's children if it is a proper list; any other
    /// node comes back unchanged as the error payload.
    pub fn into_proper_list(self) -> (r: Result<Vec<AstNode>, AstNode>)
        ensures
            match r {
                Ok(ns) => self@ matches NodeView::List(lv) && lv.tail is None && node_views(ns@)
                    == lv.elems,
                Err(n) => n == self && !(self@ matches NodeView::List(lv) && lv.tail is None),
            },
    {
        let list = match self.into_list() {
            Ok(l) => l,
            Err(n) => {
                return Err(n);
            },
        };
        if !list.is_proper_list() {
            return Err(AstNode::from_list(list));
        }
        Ok(list.into_inner().0)
    }

    /// Whether this node is an improper list; a leaf is not.
    pub fn is_improper_list(&self) -> (b: bool)
        ensures
            b == (self@ matches NodeView::List(lv) && lv.tail is Some),
    {
        if let Some(list) = self.as_list() {
            list.is_improper_list()
        } else {
            false
        }
    }

    /// The name of this node's kind, for reporting.
    pub fn get_name(&self) -> (r: &'static str)
        ensures
            r@ == kind_name(self@),
    {
        match &self.0 {
            AstNodeInner::NonList(AstNodeNonList::Number(_)) => "number",
            AstNodeInner::NonList(AstNodeNonList::Symbol(_)) => "symbol",
            AstNodeInner::NonList(AstNodeNonList::Str(_)) => "string",
            AstNodeInner::List(list) => {
                if list.is_improper_list() {
                    "improper list"
                } else {
                    "proper list"
                }
            },
            AstNodeInner::NonList(AstNodeNonList::Bool(_)) => "boolean",
        }
    }
}

/// The kind of a node, by name.
pub open spec fn kind_name(n: NodeView) -> Seq<char> {
    match n {
        NodeView::Leaf(LeafView::Number(_)) => "number"@,
        NodeView::Leaf(LeafView::Symbol(_)) => "symbol"@,
        NodeView::Leaf(LeafView::Str(_)) => "string"@,
        NodeView::Leaf(LeafView::Bool(_)) => "boolean"@,
        NodeView::List(lv) => if lv.tail is Some {
            "improper list"@
        } else {
            "proper list"@
        },
    }
}

} // verus!
