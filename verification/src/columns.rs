//! The columns of the table of files that came with later versions.
use crate::text::same_text;
use vstd::prelude::*;

verus! {

/// A column that older tables of files lack.
#[derive(Debug, Clone, Copy, PartialEq, Eq)]
pub struct Column {
    pub name: &'static str,
    pub definition: &'static str,
}

impl View for Column {
    type V = (Seq<char>, Seq<char>);

    open spec fn view(&self) -> (Seq<char>, Seq<char>) {
        (self.name@, self.definition@)
    }
}

/// The columns that were added to the table of files over time, in that order.
pub open spec fn later_columns() -> Seq<(Seq<char>, Seq<char>)> {
    seq![
        ("room_id"@, "TEXT NOT NULL DEFAULT ''"@),
        ("owner"@, "TEXT"@),
        ("path"@, "TEXT NOT NULL DEFAULT ''"@),
        ("size"@, "INTEGER NOT NULL DEFAULT 0"@),
        ("uploaded"@, "INTEGER NOT NULL DEFAULT 0"@),
    ]
}

/// Those of the columns that a table does not have.
pub open spec fn lacking(
    columns: Seq<(Seq<char>, Seq<char>)>,
    existing: Seq<Seq<char>>,
) -> Seq<(Seq<char>, Seq<char>)>
    decreases columns.len(),
{
    if columns.len() == 0 {
        seq![]
    } else if existing.contains(columns.last().0) {
        lacking(columns.drop_last(), existing)
    } else {
        lacking(columns.drop_last(), existing).push(columns.last())
    }
}

fn add_if_lacking(existing: &Vec<String>, columns: &mut Vec<Column>, column: Column)
    ensures
        final(columns)@ == if existing@.map_values(|c: String| c@).contains(column.name@) {
            old(columns)@
        } else {
            old(columns)@.push(column)
        },
{
    let ghost names = existing@.map_values(|c: String| c@);
    let mut i: usize = 0;
    while i < existing.len()
        invariant
            i <= existing.len(),
            names == existing@.map_values(|c: String| c@),
            columns@ == old(columns)@,
            forall|j: int| 0 <= j < i ==> names[j] != column.name@,
        decreases existing.len() - i,
    {
        if same_text(&existing[i], column.name) {
            proof {
                assert(names[i as int] == column.name@);
            }
            return ;
        }
        i = i + 1;
    }
    columns.push(column);
}

/// The columns to add to a table of files that has the columns `existing`.
pub fn missing_columns(existing: &Vec<String>) -> (columns: Vec<Column>)
    ensures
        columns@.map_values(|c: Column| c@) == lacking(
            later_columns(),
            existing@.map_values(|c: String| c@),
        ),
{
    let ghost names = existing@.map_values(|c: String| c@);
    let ghost all = later_columns();
    let mut columns: Vec<Column> = Vec::new();
    add_if_lacking(
        existing,
        &mut columns,
        Column { name: "room_id", definition: "TEXT NOT NULL DEFAULT ''" },
    );
    proof {
        assert(lacking(all.take(0), names) =~= seq![]);
        assert(all.take(1).drop_last() =~= all.take(0));
        assert(columns@.map_values(|c: Column| c@) =~= lacking(all.take(1), names));
    }
    add_if_lacking(existing, &mut columns, Column { name: "owner", definition: "TEXT" });
    proof {
        assert(all.take(2).drop_last() =~= all.take(1));
        assert(columns@.map_values(|c: Column| c@) =~= lacking(all.take(2), names));
    }
    add_if_lacking(
        existing,
        &mut columns,
        Column { name: "path", definition: "TEXT NOT NULL DEFAULT ''" },
    );
    proof {
        assert(all.take(3).drop_last() =~= all.take(2));
        assert(columns@.map_values(|c: Column| c@) =~= lacking(all.take(3), names));
    }
    add_if_lacking(
        existing,
        &mut columns,
        Column { name: "size", definition: "INTEGER NOT NULL DEFAULT 0" },
    );
    proof {
        assert(all.take(4).drop_last() =~= all.take(3));
        assert(columns@.map_values(|c: Column| c@) =~= lacking(all.take(4), names));
    }
    add_if_lacking(
        existing,
        &mut columns,
        Column { name: "uploaded", definition: "INTEGER NOT NULL DEFAULT 0" },
    );
    proof {
        assert(all.take(5).drop_last() =~= all.take(4));
        assert(all.take(5) =~= all);
    }
    columns
}

} // verus!
