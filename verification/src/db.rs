//! The table registry: metadata for every served table, held as a two-level
//! mapping from schema name to table name to [`Table`].  The registry is
//! built once at process start and only read afterwards.
use vstd::prelude::*;

use crate::AppError;

verus! {

/// The mathematical content of an association list: later entries shadow
/// earlier ones with the same key.
pub open spec fn map_of<V>(s: Seq<(String, V)>) -> Map<Seq<char>, V>
    decreases s.len(),
{
    if s.len() == 0 {
        Map::empty()
    } else {
        map_of(s.drop_last()).insert(s.last().0@, s.last().1)
    }
}

proof fn lemma_map_of_found<V>(s: Seq<(String, V)>, k: Seq<char>, i: int)
    requires
        0 <= i < s.len(),
        s[i].0@ == k,
        forall|j: int| i < j < s.len() ==> s[j].0@ != k,
    ensures
        map_of(s).contains_key(k),
        map_of(s)[k] == s[i].1,
    decreases s.len(),
{
    if i < s.len() - 1 {
        lemma_map_of_found(s.drop_last(), k, i);
    }
}

proof fn lemma_map_of_absent<V>(s: Seq<(String, V)>, k: Seq<char>)
    requires
        forall|j: int| 0 <= j < s.len() ==> s[j].0@ != k,
    ensures
        !map_of(s).contains_key(k),
    decreases s.len(),
{
    if s.len() > 0 {
        lemma_map_of_absent(s.drop_last(), k);
    }
}

proof fn lemma_map_of_update_last<V>(s: Seq<(String, V)>, i: int, v: V)
    requires
        0 <= i < s.len(),
        forall|j: int| i < j < s.len() ==> s[j].0@ != s[i].0@,
    ensures
        map_of(s.update(i, (s[i].0, v))) == map_of(s).insert(s[i].0@, v),
    decreases s.len(),
{
    let su = s.update(i, (s[i].0, v));
    if i == s.len() - 1 {
        assert(su.drop_last() =~= s.drop_last());
        assert(map_of(su) =~= map_of(s).insert(s[i].0@, v));
    } else {
        lemma_map_of_update_last(s.drop_last(), i, v);
        assert(su.drop_last() =~= s.drop_last().update(i, (s[i].0, v)));
        assert(su.last() == s.last());
        assert(map_of(su) =~= map_of(s).insert(s[i].0@, v));
    }
}

/// A map from string keys to values, backed by a plain entry list; its view
/// is the [`Map`] the entries denote, with the most recent entry for a key
/// authoritative.
#[derive(Debug)]
pub struct StringMap<V> {
    entries: Vec<(String, V)>,
}

impl<V> StringMap<V> {
    pub closed spec fn view(&self) -> Map<Seq<char>, V> {
        map_of(self.entries@)
    }

    pub fn new() -> (m: StringMap<V>)
        ensures
            m@ == Map::<Seq<char>, V>::empty(),
    {
        StringMap { entries: Vec::new() }
    }

    /// Binds `key` to `value`, shadowing any earlier binding.
    pub fn insert(&mut self, key: String, value: V)
        ensures
            final(self)@ == old(self)@.insert(key@, value),
    {
        self.entries.push((key, value));
        proof {
            assert(self.entries@.drop_last() =~= old(self).entries@);
        }
    }

    /// Looks the key up; the returned reference is to the authoritative
    /// entry.
    pub fn get(&self, key: &String) -> (r: Option<&V>)
        ensures
            match r {
                Some(v) => self@.contains_key(key@) && self@[key@] == *v,
                None => !self@.contains_key(key@),
            },
    {
        let mut i: usize = self.entries.len();
        while i > 0
            invariant
                i <= self.entries@.len(),
                forall|j: int| i <= j < self.entries@.len() ==> self.entries@[j].0@ != key@,
            decreases i,
        {
            i = i - 1;
            if self.entries[i].0.eq(key) {
                proof {
                    lemma_map_of_found(self.entries@, key@, i as int);
                }
                return Some(&self.entries[i].1);
            }
        }
        proof {
            lemma_map_of_absent(self.entries@, key@);
        }
        None
    }

    pub fn contains_key(&self, key: &String) -> (r: bool)
        ensures
            r == self@.contains_key(key@),
    {
        self.get(key).is_some()
    }
}

/// One served table: where it lives, how its rows are keyed, and what is
/// known of its geometry column.  An operation that needs geometry fails
/// when `geom_column` or `srid` is absent; one that needs distances fails
/// when `dist_unit` is absent.
#[derive(Debug)]
pub struct Table {
    pub name: String,
    pub schema_name: String,
    pub primary_key_columns: Vec<String>,
    pub geom_column: Option<String>,
    pub geom_type: Option<String>,
    pub srid: Option<i32>,
    pub attr_columns: Option<Vec<String>>,
    pub dist_unit: Option<String>,
    /// True when distances against this table are to be measured
    /// geodesically rather than in the plane; set for degree-based systems.
    pub use_geog: bool,
}

impl Table {
    pub fn new(
        name: String,
        schema_name: String,
        primary_key_columns: Vec<String>,
        geom_column: String,
        geom_type: String,
        srid: i32,
        attrs: Option<Vec<String>>,
        dist_unit: String,
    ) -> (t: Table)
        ensures
            t.name == name,
            t.schema_name == schema_name,
            t.primary_key_columns == primary_key_columns,
            t.geom_column == Some(geom_column),
            t.geom_type == Some(geom_type),
            t.srid == Some(srid),
            match attrs {
                Some(a) => t.attr_columns == Some(a),
                None => t.attr_columns matches Some(v) && v@ =~= Seq::<String>::empty(),
            },
            t.dist_unit == Some(dist_unit),
            t.use_geog == (dist_unit@ == "deg"@),
    {
        let use_geog = dist_unit.eq(&"deg".to_owned());
        let attr_columns = match attrs {
            Some(a) => Some(a),
            None => Some(Vec::new()),
        };
        Table {
            name,
            schema_name,
            primary_key_columns,
            geom_column: Some(geom_column),
            geom_type: Some(geom_type),
            srid: Some(srid),
            attr_columns,
            dist_unit: Some(dist_unit),
            use_geog,
        }
    }
}

/// One schema of the registry: its name and its tables by name.
#[derive(Debug)]
pub struct Schema {
    pub name: String,
    pub tables: StringMap<Table>,
}

impl Schema {
    pub fn new(n: String) -> (s: Schema)
        ensures
            s.name == n,
            s.tables@ == Map::<Seq<char>, Table>::empty(),
    {
        Schema { name: n, tables: StringMap::new() }
    }
}

/// The registry of served tables: schema name to table name to [`Table`].
#[derive(Debug)]
pub struct TableRegistry {
    pub name: String,
    pub schemas: StringMap<Schema>,
}

impl TableRegistry {
    /// The table registered under the given schema and table name, if any.
    pub open spec fn spec_get_table(self, schema: Seq<char>, table: Seq<char>) -> Option<Table> {
        if self.schemas@.contains_key(schema) && self.schemas@[schema].tables@.contains_key(table) {
            Some(self.schemas@[schema].tables@[table])
        } else {
            None
        }
    }

    pub fn new(n: String) -> (r: TableRegistry)
        ensures
            r.name == n,
            r.schemas@ == Map::<Seq<char>, Schema>::empty(),
            forall|s: Seq<char>, t: Seq<char>| r.spec_get_table(s, t) is None,
    {
        TableRegistry { name: n, schemas: StringMap::new() }
    }

    /// Registers a table under its schema, creating the schema entry the
    /// first time the schema is seen; a table already registered under the
    /// same names is replaced.
    pub fn insert_table(&mut self, schema_name: String, table_name: String, table: Table)
        ensures
            final(self).name == old(self).name,
            forall|t2: Seq<char>|
                #[trigger] final(self).spec_get_table(schema_name@, t2) == (if t2 == table_name@ {
                    Some(table)
                } else {
                    old(self).spec_get_table(schema_name@, t2)
                }),
            forall|s2: Seq<char>, t2: Seq<char>|
                s2 != schema_name@ ==> #[trigger] final(self).spec_get_table(s2, t2) == old(
                    self,
                ).spec_get_table(s2, t2),
    {
        let ghost old_entries = self.schemas.entries@;
        let mut i: usize = self.schemas.entries.len();
        while i > 0
            invariant
                self.name == old(self).name,
                self.schemas.entries@ == old_entries,
                old_entries == old(self).schemas.entries@,
                i <= old_entries.len(),
                forall|j: int| i <= j < old_entries.len() ==> old_entries[j].0@ != schema_name@,
            decreases i,
        {
            i = i - 1;
            if self.schemas.entries[i].0.eq(&schema_name) {
                let entry = &mut self.schemas.entries[i];
                entry.1.tables.insert(table_name, table);
                proof {
                    let updated = self.schemas.entries@[i as int].1;
                    assert(updated.name == old_entries[i as int].1.name);
                    assert(updated.tables@ == old_entries[i as int].1.tables@.insert(
                        table_name@,
                        table,
                    ));
                    assert(self.schemas.entries@ =~= old_entries.update(
                        i as int,
                        (old_entries[i as int].0, updated),
                    ));
                    lemma_map_of_update_last(old_entries, i as int, updated);
                    lemma_map_of_found(old_entries, schema_name@, i as int);
                    assert(self.schemas@ == map_of(old_entries).insert(schema_name@, updated));
                    assert(old(self).schemas@[schema_name@] == old_entries[i as int].1);
                }
                return ;
            }
        }
        proof {
            lemma_map_of_absent(old_entries, schema_name@);
        }
        let mut schema = Schema::new(schema_name.clone());
        schema.tables.insert(table_name, table);
        self.schemas.insert(schema_name, schema);
    }
}

/// Fills the distance metadata of a freshly reflected table, as the
/// registry loader does: when the table names a spatial reference system,
/// the distance unit follows that system, and geodesic comparison is
/// chosen exactly for degree-based systems.
pub fn resolve_distance_metadata(table: &mut Table)
    ensures
        final(table).name == old(table).name,
        final(table).schema_name == old(table).schema_name,
        final(table).primary_key_columns == old(table).primary_key_columns,
        final(table).geom_column == old(table).geom_column,
        final(table).geom_type == old(table).geom_type,
        final(table).srid == old(table).srid,
        final(table).attr_columns == old(table).attr_columns,
        old(table).srid is None ==> final(table).dist_unit == old(table).dist_unit
            && final(table).use_geog == old(table).use_geog,
        old(table).srid matches Some(srid) ==> {
            &&& (final(table).dist_unit is Some <==> crate::srid_unit(srid) is Some)
            &&& (final(table).dist_unit matches Some(u) ==> Some(u@) == crate::srid_unit(srid))
            &&& final(table).use_geog == (crate::srid_unit(srid) == Some("deg"@))
        },
{
    let srid_opt = table.srid;
    match srid_opt {
        Some(srid) => {
            match crate::get_srid_unit(srid) {
                Some(unit) => {
                    let unit_string = unit.to_owned();
                    let use_geog = unit_string.eq(&"deg".to_owned());
                    table.dist_unit = Some(unit_string);
                    table.use_geog = use_geog;
                },
                None => {
                    table.dist_unit = None;
                    table.use_geog = false;
                },
            }
        },
        None => {},
    }
}

/// Succeeds exactly when the registry holds a table under the given schema
/// and table name.
pub fn check_registry_for_table(r: &TableRegistry, schema: String, table: String) -> (res: Result<
    (),
    AppError,
>)
    ensures
        match res {
            Ok(()) => r.spec_get_table(schema@, table@) is Some,
            Err(e) => r.spec_get_table(schema@, table@) is None && e@ == "Table not found."@,
        },
{
    let found = match r.schemas.get(&schema) {
        Some(s) => s.tables.contains_key(&table),
        None => false,
    };
    if found {
        Ok(())
    } else {
        Err(AppError::new("Table not found."))
    }
}

/// Looks a table up for a request handler, telling the two misses apart:
/// an unknown schema and an unknown table within a known schema fail
/// with distinct messages, before any database work.
pub fn locate_table<'a>(r: &'a TableRegistry, schema: String, table: String) -> (res: Result<
    &'a Table,
    AppError,
>)
    ensures
        match res {
            Ok(t) => r.spec_get_table(schema@, table@) == Some(*t),
            Err(e) => r.spec_get_table(schema@, table@) is None && e@ == (
            if !r.schemas@.contains_key(schema@) {
                "Failed to locate specified schema"@
            } else {
                "Failed to locate specified table"@
            }),
        },
{
    match r.schemas.get(&schema) {
        Some(s) => match s.tables.get(&table) {
            Some(t) => Ok(t),
            None => Err(AppError::new("Failed to locate specified table")),
        },
        None => Err(AppError::new("Failed to locate specified schema")),
    }
}

/// Looks a table up by schema and table name.
pub fn get_table<'a>(r: &'a TableRegistry, schema: String, table: String) -> (res: Result<
    &'a Table,
    AppError,
>)
    ensures
        match res {
            Ok(t) => r.spec_get_table(schema@, table@) == Some(*t),
            Err(e) => r.spec_get_table(schema@, table@) is None && e@
                == "Specified table not found in schema"@,
        },
{
    match r.schemas.get(&schema) {
        Some(s) => match s.tables.get(&table) {
            Some(t) => Ok(t),
            None => Err(AppError::new("Specified table not found in schema")),
        },
        None => Err(AppError::new("Specified table not found in schema")),
    }
}

} // verus!
