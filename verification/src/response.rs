//! The response envelope the HTTP collaborator renders, and the query
//! options it parses requests into.

use vstd::prelude::*;
use crate::money::{dec_digits, format_u64};
use crate::residents::push_str;

verus! {

/// The envelope every endpoint answers with: a success flag, a short
/// message, and the data rows, if any.
#[derive(Debug)]
pub struct Response<T> {
    pub success: bool,
    pub message: String,
    pub data: Option<Vec<T>>,
}

/// Query-string options of the listing endpoints.
#[derive(Debug, Clone)]
pub struct FilterOpts {
    pub unique: Option<bool>,
    pub per_page: Option<u64>,
    pub page: Option<u64>,
    pub sort_order: Option<String>,
    pub all: Option<bool>,
    pub range: Option<String>,
    pub location: Option<i32>,
    pub rfid: Option<String>,
    pub doc: Option<i32>,
    pub order_id: Option<i32>,
    pub current: Option<bool>,
    pub active_scan: Option<bool>,
}

/// The requested ordering of a listing.
#[derive(Debug, Copy, Clone, PartialEq, Eq, Structural)]
pub enum SortOrder {
    Asc,
    Desc,
}

/// What `FilterOpts::sort_order` answers: descending exactly when the
/// option spells `"desc"`, ascending otherwise.
pub open spec fn sort_order_spec(o: Option<String>) -> SortOrder {
    match o {
        Some(s) => if s@ == "desc"@ {
            SortOrder::Desc
        } else {
            SortOrder::Asc
        },
        None => SortOrder::Asc,
    }
}

impl FilterOpts {
    /// The ordering the query asks for; ascending unless it says
    /// `"desc"`.
    pub fn sort_order(&self) -> (r: SortOrder)
        ensures
            r == sort_order_spec(self.sort_order),
    {
        match &self.sort_order {
            Some(s) => {
                let desc = "desc".to_owned();
                if *s == desc {
                    SortOrder::Desc
                } else {
                    SortOrder::Asc
                }
            },
            None => SortOrder::Asc,
        }
    }
}

/// The rows of the pairs, flattened in order: both elements of the
/// first pair, then both of the second, and so on.
pub open spec fn join_flat<T>(pairs: Seq<(T, T)>) -> Seq<T> {
    Seq::new(
        2 * pairs.len(),
        |i: int| if i % 2 == 0 {
            pairs[i / 2].0
        } else {
            pairs[i / 2].1
        },
    )
}

impl<T> Response<T> {
    /// A successful envelope carrying the message and no data.
    pub fn from_success(msg: &str) -> (r: Response<T>)
        ensures
            r.success,
            r.message@ == msg@,
            r.data is None,
    {
        Response { success: true, message: msg.to_owned(), data: None }
    }

    /// A successful envelope whose rows are the joined pairs, flattened
    /// in order.
    pub fn from_join(data: Vec<(T, T)>) -> (r: Response<T>)
        ensures
            r.success,
            r.message@ == "Data successfully retrieved"@,
            r.data is Some,
            r.data->0@ == join_flat(data@),
    {
        let ghost orig = data@;
        let mut data = data;
        let mut rows: Vec<T> = Vec::new();
        proof {
            assert(rows@ =~= join_flat(orig.take(0)));
        }
        let ghost mut taken: int = 0int;
        while data.len() > 0
            invariant
                0 <= taken <= orig.len(),
                data@ == orig.skip(taken),
                rows@ == join_flat(orig.take(taken)),
            decreases data.len(),
        {
            let (a, b) = data.remove(0);
            rows.push(a);
            rows.push(b);
            proof {
                assert(orig.skip(taken)[0] == orig[taken]);
                assert(data@ =~= orig.skip(taken + 1));
                assert(rows@ =~= join_flat(orig.take(taken + 1)));
                taken = taken + 1;
            }
        }
        proof {
            assert(orig.take(taken) =~= orig);
        }
        Response {
            success: true,
            message: "Data successfully retrieved".to_owned(),
            data: Some(rows),
        }
    }

    /// A failed envelope carrying the message and no data.
    pub fn from_error(msg: &str) -> (r: Response<T>)
        ensures
            !r.success,
            r.message@ == msg@,
            r.data is None,
    {
        Response { success: false, message: msg.to_owned(), data: None }
    }

    /// A successful envelope carrying the rows as they are.
    pub fn from_vec(data: Vec<T>) -> (r: Response<T>)
        ensures
            r.success,
            r.message@ == "Data successfully retrieved"@,
            r.data == Some(data),
    {
        Response {
            success: true,
            message: "Data successfully retrieved".to_owned(),
            data: Some(data),
        }
    }

    /// A successful envelope carrying the one row.
    pub fn from_data(data: T) -> (r: Response<T>)
        ensures
            r.success,
            r.message@ == "Data successfully retrieved"@,
            r.data is Some,
            r.data->0@.len() == 1,
            r.data->0@[0] == data,
    {
        let mut rows: Vec<T> = Vec::new();
        rows.push(data);
        Response {
            success: true,
            message: "Data successfully retrieved".to_owned(),
            data: Some(rows),
        }
    }

    /// A successful envelope carrying one fetched page: the rows, and a
    /// message reporting the total page and row counts of the paginated
    /// query.
    pub fn from_paginator(number_of_pages: u64, number_of_items: u64, data: Vec<T>) -> (r: Response<
        T,
    >)
        ensures
            r.success,
            r.message@ == "total_pages="@ + dec_digits(number_of_pages as nat) + ",total_items="@
                + dec_digits(number_of_items as nat),
            r.data == Some(data),
    {
        let mut message = "total_pages=".to_owned();
        push_str(&mut message, format_u64(number_of_pages).as_str());
        push_str(&mut message, ",total_items=");
        push_str(&mut message, format_u64(number_of_items).as_str());
        Response { success: true, message, data: Some(data) }
    }

    /// The failed envelope reporting that no resident matched.
    pub fn resident_not_found() -> (r: Response<T>)
        ensures
            !r.success,
            r.message@ == "Resident not found"@,
            r.data is None,
    {
        Response { success: false, message: "Resident not found".to_owned(), data: None }
    }
}

} // verus!
