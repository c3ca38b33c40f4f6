use vstd::prelude::*;
use vstd::string::StringExecFns;
use crate::cursor::RelayCursor;

verus! {

/// A record that can be returned inside a connection.
pub trait RelayConnectionNode: Sized {
    /// The cursor type that orders the records and bounds a page.
    type Cursor: RelayCursor;

    spec fn spec_cursor(&self) -> Self::Cursor;

    /// Returns the cursor associated with this node.
    fn cursor(&self) -> (r: Self::Cursor)
        ensures
            r == self.spec_cursor(),
    ;

    /// The name that connections over these nodes have in the API, e.g. `"FooConnection"`.
    fn connection_type_name() -> &'static str;

    /// The name that edges holding these nodes have in the API, e.g. `"FooConnectionEdge"`.
    fn edge_type_name() -> &'static str;
}

/// The text of a node's cursor.
pub open spec fn cursor_text<N: RelayConnectionNode>(node: N) -> Seq<char> {
    node.spec_cursor().spec_text()
}

/// A node together with the text of its cursor.
#[derive(Debug)]
pub struct RelayConnectionEdge<N> {
    pub node: N,
    pub cursor: String,
}

impl<N> View for RelayConnectionEdge<N> {
    type V = (N, Seq<char>);

    open spec fn view(&self) -> (N, Seq<char>) {
        (self.node, self.cursor@)
    }
}

#[derive(Debug, PartialEq, Eq)]
pub struct RelayConnectionPageInfo {
    pub has_previous_page: bool,
    pub has_next_page: bool,
    pub start_cursor: Option<String>,
    pub end_cursor: Option<String>,
}

pub struct PageInfoView {
    pub has_previous_page: bool,
    pub has_next_page: bool,
    pub start_cursor: Option<Seq<char>>,
    pub end_cursor: Option<Seq<char>>,
}

pub open spec fn text_view(t: Option<String>) -> Option<Seq<char>> {
    match t {
        Some(s) => Some(s@),
        None => None,
    }
}

impl View for RelayConnectionPageInfo {
    type V = PageInfoView;

    open spec fn view(&self) -> PageInfoView {
        PageInfoView {
            has_previous_page: self.has_previous_page,
            has_next_page: self.has_next_page,
            start_cursor: text_view(self.start_cursor),
            end_cursor: text_view(self.end_cursor),
        }
    }
}

/// One page of records: its edges, in order, and its page information.
#[derive(Debug)]
pub struct RelayConnection<N> {
    pub edges: Vec<RelayConnectionEdge<N>>,
    pub page_info: RelayConnectionPageInfo,
}

pub struct ConnectionView<N> {
    pub edges: Seq<(N, Seq<char>)>,
    pub page_info: PageInfoView,
}

impl<N> View for RelayConnection<N> {
    type V = ConnectionView<N>;

    open spec fn view(&self) -> ConnectionView<N> {
        ConnectionView {
            edges: self.edges@.map_values(|e: RelayConnectionEdge<N>| e@),
            page_info: self.page_info@,
        }
    }
}

/// Why a page could not be built from the arguments or the records.
#[derive(Debug, PartialEq, Eq)]
pub enum PaginationError {
    /// `first` or `last` is negative.
    InvalidArgument(String),
    /// `after` or `before` is no cursor; holds why.
    CursorFormat(String),
    /// A count does not fit the integers of the pagination arithmetic.
    ConversionOverflow,
}

/// Why a connection could not be built: the arguments, or the loader's own error.
#[derive(Debug, PartialEq, Eq)]
pub enum RelayError<E> {
    Pagination(PaginationError),
    Loader(E),
}

pub open spec fn invalid_argument_message() -> Seq<char> {
    "Pagination argument must be positive"@
}

pub open spec fn non_negative(a: Option<i64>) -> bool {
    match a {
        Some(v) => v >= 0,
        None => true,
    }
}

pub open spec fn widen(a: Option<i32>) -> Option<i64> {
    match a {
        Some(v) => Some(v as i64),
        None => None,
    }
}

/// How many records remain after the first `first` are kept.
pub open spec fn take_count(first: Option<i64>, n: int) -> int {
    match first {
        Some(f) => if f < n {
            f as int
        } else {
            n
        },
        None => n,
    }
}

/// How many of the kept records are dropped from the front so that at most
/// `last` remain.
pub open spec fn skip_count(first: Option<i64>, last: Option<i64>, n: int) -> int {
    let t = take_count(first, n);
    match last {
        Some(l) => if t > l {
            t - l
        } else {
            0
        },
        None => 0,
    }
}

/// Whether there are more than `bound` records, where a bound is given.
pub open spec fn exceeds(bound: Option<i64>, n: int) -> bool {
    match bound {
        Some(b) => n > b,
        None => false,
    }
}

/// The edges of the page: the records between the skip and the take count,
/// each with its cursor text.
pub open spec fn window_edges<N: RelayConnectionNode>(
    first: Option<i64>,
    last: Option<i64>,
    nodes: Seq<N>,
) -> Seq<(N, Seq<char>)> {
    nodes.subrange(
        skip_count(first, last, nodes.len() as int),
        take_count(first, nodes.len() as int),
    ).map_values(|x: N| (x, cursor_text(x)))
}

/// The page that `first` and `last` select from the candidate records.
pub open spec fn window<N: RelayConnectionNode>(
    first: Option<i64>,
    last: Option<i64>,
    nodes: Seq<N>,
) -> ConnectionView<N> {
    let edges = window_edges(first, last, nodes);
    ConnectionView {
        edges,
        page_info: PageInfoView {
            has_previous_page: exceeds(last, nodes.len() as int),
            has_next_page: exceeds(first, nodes.len() as int),
            start_cursor: if edges.len() == 0 {
                None
            } else {
                Some(edges[0].1)
            },
            end_cursor: if edges.len() == 0 {
                None
            } else {
                Some(edges.last().1)
            },
        },
    }
}

pub open spec fn empty_view<N>() -> ConnectionView<N> {
    ConnectionView {
        edges: Seq::empty(),
        page_info: PageInfoView {
            has_previous_page: false,
            has_next_page: false,
            start_cursor: None,
            end_cursor: None,
        },
    }
}

/// What building a page from `nodes` gives: the window, or an overflow where
/// the number of records does not fit an `i64`.
pub open spec fn built<N: RelayConnectionNode>(
    first: Option<i64>,
    last: Option<i64>,
    nodes: Seq<N>,
    r: Result<RelayConnection<N>, PaginationError>,
) -> bool {
    match r {
        Ok(c) => nodes.len() <= i64::MAX && c@ == window(first, last, nodes),
        Err(e) => nodes.len() > i64::MAX && e == PaginationError::ConversionOverflow,
    }
}

/// Whether an optional cursor text is absent or names a cursor.
pub open spec fn decodes<C: RelayCursor>(t: Option<String>) -> bool {
    match t {
        Some(s) => C::spec_parse(s@) is Some,
        None => true,
    }
}

/// The cursor that an optional cursor text names.
pub open spec fn decoded<C: RelayCursor>(t: Option<String>) -> Option<C> {
    match t {
        Some(s) => C::spec_parse(s@),
        None => None,
    }
}

/// The loader's limit: one more than `first`, so that a further record shows.
pub open spec fn limit_of(first: Option<i64>) -> Option<i64> {
    match first {
        Some(f) => Some((f + 1) as i64),
        None => None,
    }
}

/// Whether `first` or `last` is negative.
pub open spec fn rejects_arguments(first: Option<i32>, last: Option<i32>) -> bool {
    !non_negative(widen(first)) || !non_negative(widen(last))
}

/// What building a connection gives once the loader returned `res`: its
/// error, or the page built from its records.
pub open spec fn loaded<N: RelayConnectionNode, E>(
    first: Option<i64>,
    last: Option<i64>,
    res: Result<Vec<N>, E>,
    r: Result<RelayConnection<N>, RelayError<E>>,
) -> bool {
    match res {
        Err(e) => r == Err::<RelayConnection<N>, RelayError<E>>(RelayError::Loader(e)),
        Ok(nodes) => match r {
            Ok(c) => built(first, last, nodes@, Ok(c)),
            Err(RelayError::Pagination(e)) => built(first, last, nodes@, Err(e)),
            Err(RelayError::Loader(_)) => false,
        },
    }
}

/// Rejects a negative pagination argument.
pub fn leq_zero(val: i64) -> (r: Result<i64, &'static str>)
    ensures
        val < 0 ==> (r matches Err(m) && m@ == invalid_argument_message()),
        val >= 0 ==> r == Ok::<i64, &'static str>(val),
{
    if val < 0 {
        Err("Pagination argument must be positive")
    } else {
        Ok(val)
    }
}

/// Checks a `first` or `last` argument and widens it to the pagination integers.
pub fn check_argument(a: Option<i32>) -> (r: Result<Option<i64>, PaginationError>)
    ensures
        match r {
            Ok(v) => v == widen(a) && non_negative(v),
            Err(PaginationError::InvalidArgument(m)) => (a matches Some(x) && x < 0) && m@
                == invalid_argument_message(),
            Err(_) => false,
        },
{
    match a {
        Some(x) => match leq_zero(x as i64) {
            Ok(v) => Ok(Some(v)),
            Err(m) => Err(PaginationError::InvalidArgument(String::from_str(m))),
        },
        None => Ok(None),
    }
}

fn parse_bound<C: RelayCursor>(t: Option<String>) -> (r: Result<Option<C>, PaginationError>)
    ensures
        match r {
            Ok(c) => decodes::<C>(t) && c == decoded::<C>(t),
            Err(e) => !decodes::<C>(t) && e is CursorFormat,
        },
{
    match t {
        Some(s) => match C::parse_text(s.as_str()) {
            Ok(c) => Ok(Some(c)),
            Err(m) => Err(PaginationError::CursorFormat(m)),
        },
        None => Ok(None),
    }
}

impl<N: RelayConnectionNode> RelayConnection<N> {
    /// Decodes `after` and `before` into cursors and derives the loader's limit.
    pub fn closure_args(first: Option<i64>, after: Option<String>, before: Option<String>) -> (r:
        Result<(Option<N::Cursor>, Option<N::Cursor>, Option<i64>), PaginationError>)
        ensures
            match r {
                Ok((a, b, l)) => decodes::<N::Cursor>(after) && decodes::<N::Cursor>(before)
                    && a == decoded::<N::Cursor>(after) && b == decoded::<N::Cursor>(before)
                    && l == limit_of(first) && !(first == Some(i64::MAX)),
                Err(e) => if !decodes::<N::Cursor>(after) || !decodes::<N::Cursor>(before) {
                    e is CursorFormat
                } else {
                    first == Some(i64::MAX) && e == PaginationError::ConversionOverflow
                },
            },
    {
        let after = match parse_bound::<N::Cursor>(after) {
            Ok(c) => c,
            Err(e) => return Err(e),
        };
        let before = match parse_bound::<N::Cursor>(before) {
            Ok(c) => c,
            Err(e) => return Err(e),
        };
        let limit = match first {
            Some(f) => match f.checked_add(1) {
                Some(l) => Some(l),
                None => return Err(PaginationError::ConversionOverflow),
            },
            None => None,
        };
        Ok((after, before, limit))
    }

    /// Builds the page that `first` and `last` select from the candidate
    /// records, which the loader returned in cursor order.
    pub fn build_connection(first: Option<i64>, last: Option<i64>, edges: Vec<N>) -> (r: Result<
        RelayConnection<N>,
        PaginationError,
    >)
        requires
            non_negative(first),
            non_negative(last),
        ensures
            built(first, last, edges@, r),
    {
        let n: usize = edges.len();
        if n as u64 > i64::MAX as u64 {
            return Err(PaginationError::ConversionOverflow);
        }
        let len: i64 = n as i64;
        let has_previous_page = match last {
            Some(l) => len > l,
            None => false,
        };
        let has_next_page = match first {
            Some(f) => len > f,
            None => false,
        };
        let eff_first: i64 = match first {
            Some(f) => f,
            None => len,
        };
        let eff_last: i64 = match last {
            Some(l) => l,
            None => len,
        };
        let take: i64 = if len < eff_first {
            len
        } else {
            eff_first
        };
        let skip: i64 = if take > eff_last {
            take - eff_last
        } else {
            0
        };
        assert(take == take_count(first, n as int));
        assert(skip == skip_count(first, last, n as int));
        let ghost expected = window_edges(first, last, edges@);
        let mut nodes = edges;
        nodes.truncate(take as usize);
        let kept = nodes.split_off(skip as usize);
        assert(kept@ =~= edges@.subrange(skip as int, take as int));
        let mut out: Vec<RelayConnectionEdge<N>> = Vec::new();
        for node in it: kept
            invariant
                0 <= skip <= take <= edges@.len(),
                it.seq() == edges@.subrange(skip as int, take as int),
                expected == window_edges(first, last, edges@),
                expected == it.seq().map_values(|x: N| (x, cursor_text(x))),
                expected.len() == it.seq().len(),
                out@.len() == it.index(),
                forall|i: int|
                    0 <= i < it.index() ==> (#[trigger] out@[i])@ == expected[i],
        {
            let c = node.cursor();
            let text = c.to_text();
            let ghost k = out@.len() as int;
            out.push(RelayConnectionEdge { node, cursor: text });
            assert(out@[k]@ == expected[k]);
        }
        let start_cursor = if out.len() == 0 {
            None
        } else {
            Some(out[0].cursor.clone())
        };
        let end_cursor = if out.len() == 0 {
            None
        } else {
            Some(out[out.len() - 1].cursor.clone())
        };
        let r = RelayConnection {
            edges: out,
            page_info: RelayConnectionPageInfo {
                has_previous_page,
                has_next_page,
                start_cursor,
                end_cursor,
            },
        };
        assert(r@.edges =~= expected);
        assert(r@ == window(first, last, edges@));
        Ok(r)
    }

    /// Builds a page: checks the arguments, decodes the cursors, calls `load`
    /// once with the decoded bounds and the limit, and selects the page from
    /// what it returned. `load` returns the records strictly between `after`
    /// and `before`, in cursor order; it may ignore the limit.
    pub fn new<L, E>(
        first: Option<i32>,
        after: Option<String>,
        last: Option<i32>,
        before: Option<String>,
        load: L,
    ) -> (r: Result<RelayConnection<N>, RelayError<E>>) where
        L: FnOnce(Option<N::Cursor>, Option<N::Cursor>, Option<i64>) -> Result<Vec<N>, E>,

        requires
            forall|a: Option<N::Cursor>, b: Option<N::Cursor>, l: Option<i64>|
                #[trigger] load.requires((a, b, l)),
        ensures
            rejects_arguments(first, last) ==> (r matches Err(
                RelayError::Pagination(PaginationError::InvalidArgument(m)),
            ) && m@ == invalid_argument_message()),
            !rejects_arguments(first, last) && !(decodes::<N::Cursor>(after) && decodes::<
                N::Cursor,
            >(before)) ==> (r matches Err(RelayError::Pagination(PaginationError::CursorFormat(_)))),
            !rejects_arguments(first, last) && decodes::<N::Cursor>(after) && decodes::<N::Cursor>(
                before,
            ) ==> exists|res: Result<Vec<N>, E>|
                #[trigger] load.ensures(
                    (decoded::<N::Cursor>(after), decoded::<N::Cursor>(before), limit_of(widen(first))),
                    res,
                ) && loaded(widen(first), widen(last), res, r),
    {
        let first = match check_argument(first) {
            Ok(v) => v,
            Err(e) => return Err(RelayError::Pagination(e)),
        };
        let last = match check_argument(last) {
            Ok(v) => v,
            Err(e) => return Err(RelayError::Pagination(e)),
        };
        let (after, before, limit) = match Self::closure_args(first, after, before) {
            Ok(args) => args,
            Err(e) => return Err(RelayError::Pagination(e)),
        };
        let res = load(after, before, limit);
        let r = match res {
            Ok(nodes) => {
                match Self::build_connection(first, last, nodes) {
                    Ok(c) => Ok(c),
                    Err(e) => Err(RelayError::Pagination(e)),
                }
            },
            Err(e) => Err(RelayError::Loader(e)),
        };
        assert(loaded(first, last, res, r));
        r
    }

    /// Returns a connection with no elements.
    pub fn empty() -> (r: Self)
        ensures
            r@ == empty_view::<N>(),
    {
        let r = RelayConnection {
            edges: Vec::new(),
            page_info: RelayConnectionPageInfo {
                has_previous_page: false,
                has_next_page: false,
                start_cursor: None,
                end_cursor: None,
            },
        };
        assert(r@.edges =~= Seq::<(N, Seq<char>)>::empty());
        r
    }
}

} // verus!
