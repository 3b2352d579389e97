//! The Postgres schema of the intel tables.  The embedding column is a
//! pgvector column when the `vector` type is installed, text otherwise.
use vstd::prelude::*;

verus! {

/// Query that finds the pgvector type.
pub const VECTOR_TYPE_PROBE_SQL: &'static str = "SELECT 1 FROM pg_type WHERE typname = 'vector' LIMIT 1";

/// Whether pgvector is usable, from the probe's outcome: the number of rows
/// it returned, `None` when the query failed.
pub fn vector_type_available(probe_rows: Option<usize>) -> (b: bool)
    ensures
        b == (probe_rows matches Some(n) && n > 0),
{
    match probe_rows {
        Some(n) => n > 0,
        None => false,
    }
}

pub open spec fn embedding_column_text(use_vector: bool) -> Seq<char> {
    if use_vector {
        "embedding vector(3072)"@
    } else {
        "embedding TEXT"@
    }
}

/// The embedding column definition.
pub fn embedding_column(use_vector: bool) -> (r: String)
    ensures
        r@ == embedding_column_text(use_vector),
{
    if use_vector {
        String::from_str("embedding vector(3072)")
    } else {
        String::from_str("embedding TEXT")
    }
}

pub open spec fn intels_table_sql(use_vector: bool) -> Seq<char> {
    "\nCREATE TABLE IF NOT EXISTS seer_intels (\n  id BIGSERIAL PRIMARY KEY,\n  created_at TIMESTAMPTZ,\n  updated_at TIMESTAMPTZ,\n  title TEXT NOT NULL DEFAULT '',\n  summary TEXT NOT NULL DEFAULT '',\n  datetime TIMESTAMPTZ NOT NULL,\n  "@
        + embedding_column_text(use_vector)
        + ",\n  kind TEXT NOT NULL DEFAULT '',\n  kind_id BIGINT NOT NULL DEFAULT 0\n)\n"@
}

pub open spec fn kind_index_sql() -> Seq<char> {
    "CREATE INDEX IF NOT EXISTS idx_seer_intels_kind ON seer_intels (kind)"@
}

pub open spec fn kind_id_index_sql() -> Seq<char> {
    "CREATE INDEX IF NOT EXISTS idx_seer_intels_kind_id ON seer_intels (kind_id)"@
}

pub open spec fn events_table_sql() -> Seq<char> {
    "\nCREATE TABLE IF NOT EXISTS seer_intel_events (\n  id BIGSERIAL PRIMARY KEY,\n  created_at TIMESTAMPTZ,\n  updated_at TIMESTAMPTZ,\n  intel_id BIGINT NOT NULL UNIQUE,\n  address TEXT NOT NULL DEFAULT '',\n  datetime TIMESTAMPTZ NOT NULL,\n  latitude DOUBLE PRECISION,\n  longitude DOUBLE PRECISION\n)\n"@
}

/// The statements that create the intel tables on Postgres, in order.
pub fn postgres_schema_statements(use_vector: bool) -> (r: Vec<String>)
    ensures
        r@.len() == 4,
        r@[0]@ == intels_table_sql(use_vector),
        r@[1]@ == kind_index_sql(),
        r@[2]@ == kind_id_index_sql(),
        r@[3]@ == events_table_sql(),
{
    let mut intels = String::from_str(
        "\nCREATE TABLE IF NOT EXISTS seer_intels (\n  id BIGSERIAL PRIMARY KEY,\n  created_at TIMESTAMPTZ,\n  updated_at TIMESTAMPTZ,\n  title TEXT NOT NULL DEFAULT '',\n  summary TEXT NOT NULL DEFAULT '',\n  datetime TIMESTAMPTZ NOT NULL,\n  ",
    );
    let col = embedding_column(use_vector);
    intels.append(col.as_str());
    intels.append(",\n  kind TEXT NOT NULL DEFAULT '',\n  kind_id BIGINT NOT NULL DEFAULT 0\n)\n");
    let mut out: Vec<String> = Vec::new();
    out.push(intels);
    out.push(String::from_str("CREATE INDEX IF NOT EXISTS idx_seer_intels_kind ON seer_intels (kind)"));
    out.push(
        String::from_str("CREATE INDEX IF NOT EXISTS idx_seer_intels_kind_id ON seer_intels (kind_id)"),
    );
    out.push(
        String::from_str(
            "\nCREATE TABLE IF NOT EXISTS seer_intel_events (\n  id BIGSERIAL PRIMARY KEY,\n  created_at TIMESTAMPTZ,\n  updated_at TIMESTAMPTZ,\n  intel_id BIGINT NOT NULL UNIQUE,\n  address TEXT NOT NULL DEFAULT '',\n  datetime TIMESTAMPTZ NOT NULL,\n  latitude DOUBLE PRECISION,\n  longitude DOUBLE PRECISION\n)\n",
        ),
    );
    out
}

} // verus!
