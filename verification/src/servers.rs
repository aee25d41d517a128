use vstd::prelude::*;

use crate::ordering::{lemma_seq_lt_transitive, lemma_seq_lt_trichotomy, seq_lt, str_less};
use vstd::set_lib::{lemma_int_range, lemma_map_size, lemma_subset_equality, set_int_range};
use crate::text::{str_eq, views};

verus! {

/// Whether a server answered the last ping.
#[derive(Clone, Copy, Debug, PartialEq, Eq, Structural)]
pub enum ServerListItemStatus {
    Online,
    Offline,
    Unknown,
}

/// A server of an instance's server list.
#[derive(Clone, Debug)]
pub struct ServerListItem {
    pub name: String,
    /// In `ip:port` form.
    pub address: String,
    pub png_icon: Option<Vec<u8>>,
    pub status: ServerListItemStatus,
}

/// The sort order a table column asks for.
#[derive(Clone, Copy, Debug, PartialEq, Eq, Structural)]
pub enum ColumnSort {
    Default,
    Ascending,
    Descending,
}

/// The field a server list is sorted by.
#[derive(Clone, Copy, Debug, PartialEq, Eq, Structural)]
pub enum SortField {
    Name,
    Address,
}

pub open spec fn item_key(item: ServerListItem, field: SortField) -> Seq<char> {
    match field {
        SortField::Name => item.name@,
        SortField::Address => item.address@,
    }
}

/// Whether key `a` comes strictly before key `b`: in string order, or in reverse
/// string order when sorting descending.
pub open spec fn comes_before(a: Seq<char>, b: Seq<char>, descending: bool) -> bool {
    if descending {
        seq_lt(b, a)
    } else {
        seq_lt(a, b)
    }
}

/// `perm` takes each position of `res` to the position in `orig` that its item came
/// from, and `res` is sorted by `field` and keeps items with equal keys in their
/// original order.
pub open spec fn is_stable_sort_permutation(
    perm: Seq<int>,
    res: Seq<ServerListItem>,
    orig: Seq<ServerListItem>,
    field: SortField,
    descending: bool,
) -> bool {
    &&& perm.len() == res.len()
    &&& res.len() == orig.len()
    &&& forall|k: int| 0 <= k < res.len() ==> 0 <= #[trigger] perm[k] < orig.len() && res[k] == orig[perm[k]]
    &&& forall|k1: int, k2: int| 0 <= k1 < k2 < res.len() ==> #[trigger] perm[k1] != #[trigger] perm[k2]
    &&& forall|k1: int, k2: int|
        0 <= k1 < k2 < res.len() ==> !comes_before(
            item_key(#[trigger] res[k2], field),
            item_key(#[trigger] res[k1], field),
            descending,
        )
    &&& forall|k1: int, k2: int|
        0 <= k1 < k2 < res.len() && item_key(#[trigger] res[k1], field) == item_key(#[trigger] res[k2], field)
            ==> perm[k1] < perm[k2]
}

/// `res` is `orig` sorted stably by `field`.
pub open spec fn is_stable_sort(
    res: Seq<ServerListItem>,
    orig: Seq<ServerListItem>,
    field: SortField,
    descending: bool,
) -> bool {
    exists|perm: Seq<int>| is_stable_sort_permutation(perm, res, orig, field, descending)
}

proof fn lemma_comes_before_order(a: Seq<char>, b: Seq<char>, c: Seq<char>, d: bool)
    ensures
        !comes_before(a, a, d),
        !(comes_before(a, b, d) && comes_before(b, a, d)),
        a != b ==> comes_before(a, b, d) || comes_before(b, a, d),
        comes_before(a, b, d) && comes_before(b, c, d) ==> comes_before(a, c, d),
{
    lemma_seq_lt_trichotomy(a, b);
    lemma_seq_lt_trichotomy(b, a);
    if comes_before(a, b, d) && comes_before(b, c, d) {
        if d {
            lemma_seq_lt_transitive(c, b, a);
        } else {
            lemma_seq_lt_transitive(a, b, c);
        }
    }
}

fn key_before(a: &ServerListItem, b: &ServerListItem, field: SortField, descending: bool) -> (res: bool)
    ensures
        res == comes_before(item_key(*a, field), item_key(*b, field), descending),
{
    let (ka, kb) = match field {
        SortField::Name => (a.name.as_str(), b.name.as_str()),
        SortField::Address => (a.address.as_str(), b.address.as_str()),
    };
    if descending {
        str_less(kb, ka)
    } else {
        str_less(ka, kb)
    }
}

/// Sorts servers by `field`, ascending or descending, keeping servers with equal keys
/// in their order.
pub fn sort_servers(items: Vec<ServerListItem>, field: SortField, descending: bool) -> (res: Vec<ServerListItem>)
    ensures
        is_stable_sort(res@, items@, field, descending),
{
    let ghost orig = items@;
    let mut src = items;
    let mut res: Vec<ServerListItem> = Vec::new();
    let ghost mut perm: Seq<int> = Seq::empty();
    let ghost mut i: int = 0;
    while src.len() > 0
        invariant
            0 <= i <= orig.len(),
            src@ == orig.skip(i),
            perm.len() == i,
            res@.len() == i,
            forall|k: int| 0 <= k < i ==> 0 <= #[trigger] perm[k] < i && res@[k] == orig[perm[k]],
            forall|k1: int, k2: int| 0 <= k1 < k2 < i ==> #[trigger] perm[k1] != #[trigger] perm[k2],
            forall|k1: int, k2: int|
                0 <= k1 < k2 < i ==> !comes_before(
                    item_key(#[trigger] res@[k2], field),
                    item_key(#[trigger] res@[k1], field),
                    descending,
                ),
            forall|k1: int, k2: int|
                0 <= k1 < k2 < i && item_key(#[trigger] res@[k1], field) == item_key(#[trigger] res@[k2], field)
                    ==> perm[k1] < perm[k2],
        decreases src@.len(),
    {
        let x = src.remove(0);
        assert(x == orig[i]);
        let mut pos: usize = 0;
        while pos < res.len() && !key_before(&x, &res[pos], field, descending)
            invariant
                pos <= res@.len(),
                forall|k: int| 0 <= k < pos ==> !comes_before(item_key(x, field), item_key(#[trigger] res@[k], field), descending),
            decreases res@.len() - pos,
        {
            pos = pos + 1;
        }
        let ghost old_res = res@;
        let ghost old_perm = perm;
        let ghost kx = item_key(x, field);
        proof {
            // Every item from `pos` on comes after `x`.
            assert forall|k: int| pos <= k < old_res.len() implies comes_before(kx, item_key(#[trigger] old_res[k], field), descending) by {
                let kp = item_key(old_res[pos as int], field);
                let kk = item_key(old_res[k], field);
                lemma_comes_before_order(kx, kp, kk, descending);
                lemma_comes_before_order(kp, kk, kx, descending);
                if k > pos {
                    assert(!comes_before(kk, kp, descending));
                }
            }
        }
        res.insert(pos, x);
        proof {
            perm = old_perm.insert(pos as int, i);
            let n: int = i + 1;
            assert forall|k: int| 0 <= k < n implies 0 <= #[trigger] perm[k] < n && res@[k] == orig[perm[k]] by {
                if k < pos {
                    assert(perm[k] == old_perm[k]);
                } else if k > pos {
                    assert(perm[k] == old_perm[k - 1]);
                }
            }
            assert forall|k1: int, k2: int| 0 <= k1 < k2 < n implies #[trigger] perm[k1] != #[trigger] perm[k2] by {
                if k1 != pos && k2 != pos {
                    let j1 = if k1 < pos { k1 } else { k1 - 1 };
                    let j2 = if k2 < pos { k2 } else { k2 - 1 };
                    assert(old_perm[j1] != old_perm[j2]);
                } else if k1 == pos {
                    assert(old_perm[k2 - 1] < i);
                } else {
                    assert(old_perm[k1] < i);
                }
            }
            assert forall|k1: int, k2: int| 0 <= k1 < k2 < n implies !comes_before(
                item_key(#[trigger] res@[k2], field),
                item_key(#[trigger] res@[k1], field),
                descending,
            ) by {
                let j1 = if k1 < pos { k1 } else { k1 - 1 };
                let j2 = if k2 < pos { k2 } else { k2 - 1 };
                if k1 == pos {
                    lemma_comes_before_order(kx, item_key(old_res[j2], field), kx, descending);
                } else if k2 == pos {
                } else {
                    assert(res@[k1] == old_res[j1]);
                    assert(res@[k2] == old_res[j2]);
                }
            }
            assert forall|k1: int, k2: int|
                0 <= k1 < k2 < n && item_key(#[trigger] res@[k1], field) == item_key(#[trigger] res@[k2], field)
                implies perm[k1] < perm[k2] by {
                let j1 = if k1 < pos { k1 } else { k1 - 1 };
                let j2 = if k2 < pos { k2 } else { k2 - 1 };
                if k1 == pos {
                    lemma_comes_before_order(kx, kx, kx, descending);
                } else if k2 == pos {
                    assert(old_perm[j1] < i);
                } else {
                    assert(res@[k1] == old_res[j1]);
                    assert(res@[k2] == old_res[j2]);
                }
            }
            assert(src@ =~= orig.skip(i + 1));
            i = i + 1;
        }
    }
    proof {
        assert(i == orig.len());
        assert(is_stable_sort_permutation(perm, res@, orig, field, descending));
    }
    res
}

/// Sorting by address orders servers by their whole address strings (host and port
/// alike): ascending, no server comes after one whose address string is smaller;
/// descending, none comes after one whose address string is larger; and servers with
/// the same address keep their order.
pub proof fn lemma_address_sort_orders_whole_addresses(
    res: Seq<ServerListItem>,
    orig: Seq<ServerListItem>,
    descending: bool,
)
    requires
        is_stable_sort(res, orig, SortField::Address, descending),
    ensures
        res.len() == orig.len(),
        forall|k1: int, k2: int|
            0 <= k1 < k2 < res.len() ==> if descending {
                !seq_lt(#[trigger] res[k1].address@, #[trigger] res[k2].address@)
            } else {
                !seq_lt(res[k2].address@, res[k1].address@)
            },
{
    let perm = choose|perm: Seq<int>| is_stable_sort_permutation(perm, res, orig, SortField::Address, descending);
    assert forall|k1: int, k2: int| 0 <= k1 < k2 < res.len() implies if descending {
        !seq_lt(#[trigger] res[k1].address@, #[trigger] res[k2].address@)
    } else {
        !seq_lt(res[k2].address@, res[k1].address@)
    } by {
        assert(!comes_before(
            item_key(res[k2], SortField::Address),
            item_key(res[k1], SortField::Address),
            descending,
        ));
    }
}

/// Sorting by name orders servers by their whole name strings: ascending, no server
/// comes after one whose name is smaller; descending, none comes after one whose name
/// is larger.
pub proof fn lemma_name_sort_orders_names(res: Seq<ServerListItem>, orig: Seq<ServerListItem>, descending: bool)
    requires
        is_stable_sort(res, orig, SortField::Name, descending),
    ensures
        res.len() == orig.len(),
        forall|k1: int, k2: int|
            0 <= k1 < k2 < res.len() ==> if descending {
                !seq_lt(#[trigger] res[k1].name@, #[trigger] res[k2].name@)
            } else {
                !seq_lt(res[k2].name@, res[k1].name@)
            },
{
    let perm = choose|perm: Seq<int>| is_stable_sort_permutation(perm, res, orig, SortField::Name, descending);
    assert forall|k1: int, k2: int| 0 <= k1 < k2 < res.len() implies if descending {
        !seq_lt(#[trigger] res[k1].name@, #[trigger] res[k2].name@)
    } else {
        !seq_lt(res[k2].name@, res[k1].name@)
    } by {
        assert(!comes_before(item_key(res[k2], SortField::Name), item_key(res[k1], SortField::Name), descending));
    }
}

/// The server table's name column sorts by name and its address column by address;
/// its status and actions columns do not sort.
pub proof fn lemma_sortable_columns()
    ensures
        spec_server_columns().len() == 4,
        spec_sort_field(spec_server_columns()[0]) == Some(SortField::Name),
        spec_sort_field(spec_server_columns()[1]) == Some(SortField::Address),
        spec_sort_field(spec_server_columns()[2]) is None,
        spec_sort_field(spec_server_columns()[3]) is None,
{
    reveal_strlit("name");
    reveal_strlit("address");
    reveal_strlit("status");
    reveal_strlit("actions");
    let c = spec_server_columns();
    assert(c[2] == "status"@ && c[3] == "actions"@);
    assert("status"@.len() != "name"@.len() && "status"@.len() != "address"@.len());
    assert("actions"@[1] != "address"@[1] && "actions"@.len() != "name"@.len());
}

/// The keys of the server table's columns, in display order.
pub open spec fn spec_server_columns() -> Seq<Seq<char>> {
    seq!["name"@, "address"@, "status"@, "actions"@]
}

/// What a cell of the server table holds.
#[derive(Clone, Copy, Debug, PartialEq, Eq, Structural)]
pub enum CellKind {
    Name,
    Address,
    Status,
    Actions,
    Unknown,
}

/// The content of a column with key `key`.
pub open spec fn spec_cell_kind(key: Seq<char>) -> CellKind {
    if key == "name"@ {
        CellKind::Name
    } else if key == "address"@ {
        CellKind::Address
    } else if key == "status"@ {
        CellKind::Status
    } else if key == "actions"@ {
        CellKind::Actions
    } else {
        CellKind::Unknown
    }
}

/// The table of an instance's servers: its column keys and its rows.
pub struct ServersTable {
    pub columns: Vec<String>,
    pub items: Vec<ServerListItem>,
}

/// The field that a sort on the column with key `key` sorts by, if any.
pub open spec fn spec_sort_field(key: Seq<char>) -> Option<SortField> {
    if key == "name"@ {
        Some(SortField::Name)
    } else if key == "address"@ {
        Some(SortField::Address)
    } else {
        None
    }
}

impl ServersTable {
    /// The column keys.
    pub open spec fn columns(&self) -> Seq<Seq<char>> {
        views(self.columns@)
    }

    /// A table of `items` with the columns name, address, status and actions.
    pub fn new(items: Vec<ServerListItem>) -> (res: Self)
        ensures
            res.columns() == spec_server_columns(),
            res.items@ == items@,
    {
        let columns = vec![
            "name".to_owned(),
            "address".to_owned(),
            "status".to_owned(),
            "actions".to_owned(),
        ];
        assert(views(columns@) =~= spec_server_columns());
        ServersTable { columns, items }
    }

    pub fn rows_count(&self) -> (res: usize)
        ensures
            res == self.items@.len(),
    {
        self.items.len()
    }

    pub fn columns_count(&self) -> (res: usize)
        ensures
            res == self.columns().len(),
    {
        self.columns.len()
    }

    /// What the table shows in the cell at `row_ix`, `col_ix`: the content of the
    /// column's key (name, address, status or actions), or "unknown" for a row or a
    /// column past the last or a column with any other key.
    pub fn cell_kind(&self, row_ix: usize, col_ix: usize) -> (res: CellKind)
        ensures
            res == if row_ix < self.items@.len() && col_ix < self.columns().len() {
                spec_cell_kind(self.columns()[col_ix as int])
            } else {
                CellKind::Unknown
            },
    {
        if row_ix >= self.items.len() || col_ix >= self.columns.len() {
            return CellKind::Unknown;
        }
        let key = self.columns[col_ix].as_str();
        if str_eq(key, "name") {
            CellKind::Name
        } else if str_eq(key, "address") {
            CellKind::Address
        } else if str_eq(key, "status") {
            CellKind::Status
        } else if str_eq(key, "actions") {
            CellKind::Actions
        } else {
            CellKind::Unknown
        }
    }

    /// The key of column `col_ix`.
    pub fn column(&self, col_ix: usize) -> (res: String)
        requires
            col_ix < self.columns().len(),
        ensures
            res@ == self.columns()[col_ix as int],
    {
        self.columns[col_ix].clone()
    }

    /// Sorts the rows by the column `col_ix`: by name for the name column and by address
    /// for the address column, descending when `sort` asks for it and ascending otherwise,
    /// keeping rows with equal keys in their order. Any other column, or a column index
    /// past the last, leaves the rows as they are.
    pub fn perform_sort(&mut self, col_ix: usize, sort: ColumnSort)
        ensures
            final(self).columns() == old(self).columns(),
            match (if col_ix < old(self).columns().len() {
                spec_sort_field(old(self).columns()[col_ix as int])
            } else {
                None
            }) {
                Some(field) => is_stable_sort(
                    final(self).items@,
                    old(self).items@,
                    field,
                    sort == ColumnSort::Descending,
                ),
                None => final(self).items@ == old(self).items@,
            },
    {
        if col_ix >= self.columns.len() {
            return;
        }
        proof {
            reveal_strlit("name");
            reveal_strlit("address");
        }
        let field = if str_eq(self.columns[col_ix].as_str(), "name") {
            SortField::Name
        } else if str_eq(self.columns[col_ix].as_str(), "address") {
            SortField::Address
        } else {
            return;
        };
        let descending = match sort {
            ColumnSort::Descending => true,
            _ => false,
        };
        let mut items: Vec<ServerListItem> = Vec::new();
        std::mem::swap(&mut items, &mut self.items);
        self.items = sort_servers(items, field, descending);
    }
}

/// The last `:`-separated part of an address: its port, or the whole address when it
/// has no `:`.
pub open spec fn spec_port_of_address(address: Seq<char>) -> Seq<char>
    decreases address.len(),
{
    if address.len() == 0 {
        address
    } else if address.last() == ':' {
        Seq::empty()
    } else {
        spec_port_of_address(address.drop_last()).push(address.last())
    }
}

/// The port shown when a server is edited: what follows the last `:` of its address
/// (the whole address if it has none).
pub fn port_of_address(address: &str) -> (res: String)
    ensures
        res@ == spec_port_of_address(address@),
{
    let n: usize = address.unicode_len();
    let mut start: usize = 0;
    let mut i: usize = 0;
    while i < n
        invariant
            n == address@.len(),
            start <= i <= n,
            spec_port_of_address(address@.take(i as int)) == address@.subrange(start as int, i as int),
        decreases n - i,
    {
        let c = address.get_char(i);
        let ghost t = address@.take(i + 1);
        assert(t.drop_last() =~= address@.take(i as int));
        if c == ':' {
            start = i + 1;
            assert(address@.subrange(start as int, i + 1) =~= Seq::<char>::empty());
        } else {
            assert(address@.subrange(start as int, i + 1) =~= address@.subrange(start as int, i as int).push(c));
        }
        i = i + 1;
    }
    assert(address@.take(n as int) =~= address@);
    address.substring_char(start, n).to_owned()
}

/// How instances (and servers) are listed.
#[derive(Clone, Copy, Debug, PartialEq, Eq, Structural)]
pub enum InstancesViewMode {
    Cards,
    List,
}

/// The kinds of servers pages.
#[derive(Clone, Copy, Debug, PartialEq, Eq, Structural)]
pub enum ServersPageType {
    Servers,
}

/// Whether the servers page scrolls as a whole: it does for cards; a list scrolls in
/// its own table.
pub fn servers_page_scrollable(mode: InstancesViewMode) -> (res: bool)
    ensures
        res == (mode == InstancesViewMode::Cards),
{
    match mode {
        InstancesViewMode::Cards => true,
        InstancesViewMode::List => false,
    }
}

/// What the servers page shows: a note that there are no servers, the servers as
/// cards, or the servers as a list.
#[derive(Clone, Copy, Debug, PartialEq, Eq, Structural)]
pub enum ServersView {
    Empty,
    Cards,
    List,
}

/// The view of the servers page: the empty note when there are no servers, otherwise
/// cards or a list as the view mode says.
pub fn servers_view(items_count: usize, mode: InstancesViewMode) -> (res: ServersView)
    ensures
        res == if items_count == 0 {
            ServersView::Empty
        } else if mode == InstancesViewMode::Cards {
            ServersView::Cards
        } else {
            ServersView::List
        },
{
    if items_count == 0 {
        return ServersView::Empty;
    }
    match mode {
        InstancesViewMode::Cards => ServersView::Cards,
        InstancesViewMode::List => ServersView::List,
    }
}

/// What a server dialog was opened to do.
#[derive(Clone, Copy, Debug, PartialEq, Eq, Structural)]
pub enum DialogAction {
    Add,
    Edit,
    Delete,
    Confirm,
    Cancel,
}

/// The title a server dialog shows.
#[derive(Clone, Copy, Debug, PartialEq, Eq, Structural)]
pub enum DialogTitle {
    AddServer,
    EditServer,
    DeleteServer,
    Unknown,
}

/// The title of a server dialog: adding, editing or deleting a server, as its action
/// says; "unknown" for any other action.
pub fn dialog_title(action: DialogAction) -> (res: DialogTitle)
    ensures
        res == match action {
            DialogAction::Add => DialogTitle::AddServer,
            DialogAction::Edit => DialogTitle::EditServer,
            DialogAction::Delete => DialogTitle::DeleteServer,
            _ => DialogTitle::Unknown,
        },
{
    match action {
        DialogAction::Add => DialogTitle::AddServer,
        DialogAction::Edit => DialogTitle::EditServer,
        DialogAction::Delete => DialogTitle::DeleteServer,
        _ => DialogTitle::Unknown,
    }
}

/// The port shown for an address holds no `:` and is how the address ends.
pub proof fn lemma_port_of_address(address: Seq<char>)
    ensures
        !spec_port_of_address(address).contains(':'),
        spec_port_of_address(address).len() <= address.len(),
        address.subrange(address.len() - spec_port_of_address(address).len(), address.len() as int)
            == spec_port_of_address(address),
    decreases address.len(),
{
    if address.len() > 0 {
        lemma_port_of_address(address.drop_last());
        let p = spec_port_of_address(address.drop_last());
        if address.last() != ':' {
            let q = p.push(address.last());
            assert forall|k: int| 0 <= k < q.len() implies q[k] != ':' by {
                if k < p.len() {
                    assert(!p.contains(':'));
                    assert(q[k] == p[k]);
                }
            }
            let d = address.drop_last();
            assert(address.subrange(address.len() - q.len(), address.len() as int) =~= d.subrange(
                d.len() - p.len(),
                d.len() as int,
            ).push(address.last()));
        } else {
            assert(address.subrange(address.len() as int, address.len() as int) =~= Seq::<char>::empty());
        }
    }
}

/// Some position of `0..n` is taken to `a`.
spec fn reaches(perm: Seq<int>, n: int, a: int) -> bool {
    exists|k: int| 0 <= k < n && #[trigger] perm[k] == a
}

/// An injective map of `0..n` into `0..n` reaches every position.
proof fn lemma_permutation_onto(perm: Seq<int>, n: int)
    requires
        perm.len() == n,
        forall|k: int| 0 <= k < n ==> 0 <= #[trigger] perm[k] < n,
        forall|k1: int, k2: int| 0 <= k1 < k2 < n ==> #[trigger] perm[k1] != #[trigger] perm[k2],
    ensures
        forall|a: int| 0 <= a < n ==> #[trigger] reaches(perm, n, a),
{
    let dom = set_int_range(0, n);
    let f = |k: int| perm[k];
    let img = dom.map(f);
    lemma_int_range(0, n);
    assert(vstd::relations::injective_on(f, dom)) by {
        assert forall|x: int, y: int| dom.contains(x) && dom.contains(y) && #[trigger] f(x) == #[trigger] f(y)
            implies x == y by {
            if x < y {
                assert(perm[x] != perm[y]);
            } else if y < x {
                assert(perm[y] != perm[x]);
            }
        }
    }
    lemma_map_size(dom, img, f);
    assert(img.subset_of(dom)) by {
        assert forall|a: int| img.contains(a) implies dom.contains(a) by {
            let k = choose|k: int| dom.contains(k) && f(k) == a;
        }
    }
    lemma_subset_equality(img, dom);
    assert forall|a: int| 0 <= a < n implies #[trigger] reaches(perm, n, a) by {
        assert(dom.contains(a));
        assert(img.contains(a));
        let k = choose|k: int| dom.contains(k) && f(k) == a;
        assert(perm[k] == a);
    }
}

proof fn lemma_stable_sorts_agree_at(
    p1: Seq<int>,
    p2: Seq<int>,
    r1: Seq<ServerListItem>,
    r2: Seq<ServerListItem>,
    orig: Seq<ServerListItem>,
    field: SortField,
    descending: bool,
    i: int,
)
    requires
        is_stable_sort_permutation(p1, r1, orig, field, descending),
        is_stable_sort_permutation(p2, r2, orig, field, descending),
        0 <= i < orig.len(),
        forall|k: int| 0 <= k < i ==> p1[k] == p2[k],
    ensures
        p1[i] == p2[i],
{
    let n = orig.len() as int;
    lemma_permutation_onto(p1, n);
    lemma_permutation_onto(p2, n);
    let a = p1[i];
    let b = p2[i];
    if a != b {
        assert(reaches(p2, n, a));
        assert(reaches(p1, n, b));
        let j = choose|k: int| 0 <= k < n && #[trigger] p2[k] == a;
        let j1 = choose|k: int| 0 <= k < n && #[trigger] p1[k] == b;
        if j < i {
            assert(p1[j] == a);
            assert(p1[j] != p1[i]);
        }
        if j1 < i {
            assert(p2[j1] == b);
            assert(p2[j1] != p2[i]);
        }
        assert(j > i && j1 > i);
        let ka = item_key(orig[a], field);
        let kb = item_key(orig[b], field);
        assert(r1[i] == orig[a] && r1[j1] == orig[b]);
        assert(r2[i] == orig[b] && r2[j] == orig[a]);
        assert(!comes_before(item_key(r1[j1], field), item_key(r1[i], field), descending));
        assert(!comes_before(item_key(r2[j], field), item_key(r2[i], field), descending));
        lemma_comes_before_order(ka, kb, ka, descending);
        assert(ka == kb);
        assert(p1[i] < p1[j1]);
        assert(p2[i] < p2[j]);
    }
}

proof fn lemma_stable_sorts_agree_up_to(
    p1: Seq<int>,
    p2: Seq<int>,
    r1: Seq<ServerListItem>,
    r2: Seq<ServerListItem>,
    orig: Seq<ServerListItem>,
    field: SortField,
    descending: bool,
    i: int,
)
    requires
        is_stable_sort_permutation(p1, r1, orig, field, descending),
        is_stable_sort_permutation(p2, r2, orig, field, descending),
        0 <= i <= orig.len(),
    ensures
        forall|k: int| 0 <= k < i ==> p1[k] == p2[k],
    decreases i,
{
    if i > 0 {
        lemma_stable_sorts_agree_up_to(p1, p2, r1, r2, orig, field, descending, i - 1);
        lemma_stable_sorts_agree_at(p1, p2, r1, r2, orig, field, descending, i - 1);
    }
}

/// A list has exactly one stable sort: any two stable sorts of it by the same field and
/// direction are the same list.
pub proof fn lemma_stable_sort_unique(
    r1: Seq<ServerListItem>,
    r2: Seq<ServerListItem>,
    orig: Seq<ServerListItem>,
    field: SortField,
    descending: bool,
)
    requires
        is_stable_sort(r1, orig, field, descending),
        is_stable_sort(r2, orig, field, descending),
    ensures
        r1 == r2,
{
    let p1 = choose|p: Seq<int>| is_stable_sort_permutation(p, r1, orig, field, descending);
    let p2 = choose|p: Seq<int>| is_stable_sort_permutation(p, r2, orig, field, descending);
    lemma_stable_sorts_agree_up_to(p1, p2, r1, r2, orig, field, descending, orig.len() as int);
    assert forall|k: int| 0 <= k < r1.len() implies r1[k] == r2[k] by {
        assert(p1[k] == p2[k]);
    }
    assert(r1 =~= r2);
}

/// Sorting a list that is already sorted leaves it as it is; in particular sorting twice
/// by the same column gives what sorting once gave.
pub proof fn lemma_sorting_sorted_is_identity(
    res: Seq<ServerListItem>,
    orig: Seq<ServerListItem>,
    field: SortField,
    descending: bool,
)
    requires
        forall|k1: int, k2: int|
            0 <= k1 < k2 < orig.len() ==> !comes_before(
                item_key(#[trigger] orig[k2], field),
                item_key(#[trigger] orig[k1], field),
                descending,
            ),
        is_stable_sort(res, orig, field, descending),
    ensures
        res == orig,
{
    let id = Seq::new(orig.len(), |k: int| k);
    assert(is_stable_sort_permutation(id, orig, orig, field, descending));
    lemma_stable_sort_unique(res, orig, orig, field, descending);
}

} // verus!
