pub mod batch;
pub mod desc;
pub mod error;
pub mod hash_table;
pub mod inner_join;
pub mod left_join;
pub mod marker;
pub mod materialize;
pub mod right_mark;
pub mod row;
pub mod semantics;
