//! A hierarchical frame profiler.
//!
//! The profiler is an injected observer: the host owns one instance, hands
//! every `start`/`stop` the clock reading in nanoseconds, and prints the
//! rows itself. Spans started while a `main` span is open account into the
//! per-frame table, which a frame-end reset clears; spans outside `main`
//! account into the persistent table. Each table keeps one row per
//! (name, depth) pair, in first-use order.

use vstd::prelude::*;

verus! {

/// One aggregated row: a span name, its nesting depth, the summed
/// duration and how often it ran.
pub struct ProfileEntry {
    pub name: String,
    pub depth: usize,
    pub nanos: u64,
    pub count: u32,
}

/// Two rows describe the same span.
pub open spec fn same_key(e: ProfileEntry, name: Seq<char>, depth: int) -> bool {
    e.name@ == name && e.depth == depth
}

/// No two rows of a table describe the same span.
pub open spec fn entries_unique(s: Seq<ProfileEntry>) -> bool {
    forall|i: int, j: int|
        0 <= i < j < s.len() ==> !same_key(#[trigger] s[i], #[trigger] s[j].name@, s[j].depth as int)
}

/// A row with one more run of `elapsed` nanoseconds folded in; both
/// fields saturate rather than wrap.
pub open spec fn bumped(e: ProfileEntry, elapsed: u64) -> ProfileEntry {
    ProfileEntry {
        name: e.name,
        depth: e.depth,
        nanos: if e.nanos + elapsed > u64::MAX {
            u64::MAX
        } else {
            (e.nanos + elapsed) as u64
        },
        count: if e.count < u32::MAX {
            (e.count + 1) as u32
        } else {
            e.count
        },
    }
}

/// The profiler state. `stack` holds the open spans (name and start
/// time); `delta_time` remembers the length of the last closed `main`
/// span.
pub struct Profiler {
    pub stack: Vec<(String, u64)>,
    pub frame_entries: Vec<ProfileEntry>,
    pub persistent_entries: Vec<ProfileEntry>,
    pub delta_time: u64,
}

/// A `main` span is open.
pub open spec fn inside_main(stack: Seq<(String, u64)>) -> bool {
    exists|i: int| 0 <= i < stack.len() && (#[trigger] stack[i]).0@ == "main"@
}

impl Profiler {
    /// Both tables keyed uniquely.
    pub open spec fn wf(self) -> bool {
        entries_unique(self.frame_entries@) && entries_unique(self.persistent_entries@)
    }

    pub fn new() -> (p: Profiler)
        ensures
            p.wf(),
            p.stack@.len() == 0,
            p.frame_entries@.len() == 0,
            p.persistent_entries@.len() == 0,
            p.delta_time == 0,
    {
        Profiler {
            stack: Vec::new(),
            frame_entries: Vec::new(),
            persistent_entries: Vec::new(),
            delta_time: 0,
        }
    }
}

/// Opens a span at the given clock reading.
pub fn profiler_start(profiler: &mut Profiler, name: String, now_nanos: u64)
    ensures
        final(profiler).stack@ == old(profiler).stack@.push((name, now_nanos)),
        final(profiler).frame_entries@ == old(profiler).frame_entries@,
        final(profiler).persistent_entries@ == old(profiler).persistent_entries@,
        final(profiler).delta_time == old(profiler).delta_time,
        old(profiler).wf() ==> final(profiler).wf(),
{
    profiler.stack.push((name, now_nanos));
}

/// Closes the innermost open span at the given clock reading and folds
/// its duration into the frame table (when inside `main`, or closing
/// `main` itself) or the persistent table. A row already keyed by the
/// span's name and depth is bumped; otherwise a fresh row is appended.
/// A clock that ran backwards counts as zero elapsed time. The span name
/// handed in is unused, as the stack knows which span is open; it mirrors
/// the call shape of `profiler_start`.
pub fn profiler_stop(profiler: &mut Profiler, _name: &str, now_nanos: u64)
    requires
        old(profiler).stack@.len() > 0,
        old(profiler).wf(),
    ensures
        final(profiler).wf(),
        final(profiler).stack@ == old(profiler).stack@.drop_last(),
        ({
            let (name, start) = old(profiler).stack@.last();
            let elapsed: u64 = if now_nanos >= start {
                (now_nanos - start) as u64
            } else {
                0u64
            };
            let depth = old(profiler).stack@.len() - 1;
            let to_frame = inside_main(old(profiler).stack@.drop_last()) || name@ == "main"@;
            &&& final(profiler).delta_time == if name@ == "main"@ {
                elapsed
            } else {
                old(profiler).delta_time
            }
            &&& to_frame ==> final(profiler).persistent_entries@ == old(
                profiler,
            ).persistent_entries@ && recorded(
                old(profiler).frame_entries@,
                final(profiler).frame_entries@,
                name@,
                depth,
                elapsed,
            )
            &&& !to_frame ==> final(profiler).frame_entries@ == old(profiler).frame_entries@
                && recorded(
                old(profiler).persistent_entries@,
                final(profiler).persistent_entries@,
                name@,
                depth,
                elapsed,
            )
        }),
{
    let (name, start) = profiler.stack.pop().unwrap();
    let depth = profiler.stack.len();
    let elapsed: u64 = if now_nanos >= start {
        now_nanos - start
    } else {
        0
    };

    let is_main = str_eq(name.as_str(), "main");
    if is_main {
        profiler.delta_time = elapsed;
    }

    let to_frame = stack_has_main(&profiler.stack) || is_main;
    if to_frame {
        record_span(&mut profiler.frame_entries, name, depth, elapsed);
    } else {
        record_span(&mut profiler.persistent_entries, name, depth, elapsed);
    }
}

/// How one close updates a table: the row keyed by the span is bumped,
/// or a fresh row is appended when none is.
pub open spec fn recorded(
    before: Seq<ProfileEntry>,
    after: Seq<ProfileEntry>,
    name: Seq<char>,
    depth: int,
    elapsed: u64,
) -> bool {
    &&& (forall|i: int|
        0 <= i < before.len() && same_key(#[trigger] before[i], name, depth) ==> after
            == before.update(i, bumped(before[i], elapsed)))
    &&& ((forall|i: int| 0 <= i < before.len() ==> !same_key(#[trigger] before[i], name, depth))
        ==> after.len() == before.len() + 1 && after.take(before.len() as int) == before
        && after.last().name@ == name && after.last().depth == depth && after.last().nanos
        == elapsed && after.last().count == 1)
}

/// Folds one closed span into a table.
fn record_span(entries: &mut Vec<ProfileEntry>, name: String, depth: usize, elapsed: u64)
    requires
        entries_unique(old(entries)@),
    ensures
        entries_unique(final(entries)@),
        recorded(old(entries)@, final(entries)@, name@, depth as int, elapsed),
{
    let n = entries.len();
    let mut k: usize = 0;
    while k < n
        invariant
            0 <= k <= n,
            n == entries@.len(),
            entries@ == old(entries)@,
            entries_unique(entries@),
            forall|i: int| 0 <= i < k ==> !same_key(#[trigger] entries@[i], name@, depth as int),
        decreases n - k,
    {
        let hit = str_eq(entries[k].name.as_str(), name.as_str()) && entries[k].depth == depth;
        if hit {
            let old_nanos = entries[k].nanos;
            let old_count = entries[k].count;
            let new_nanos = if old_nanos > u64::MAX - elapsed {
                u64::MAX
            } else {
                old_nanos + elapsed
            };
            let new_count = if old_count < u32::MAX {
                old_count + 1
            } else {
                old_count
            };
            let mut e = entries.remove(k);
            e.nanos = new_nanos;
            e.count = new_count;
            entries.insert(k, e);
            proof {
                assert(entries@ =~= old(entries)@.update(
                    k as int,
                    bumped(old(entries)@[k as int], elapsed),
                ));
                assert forall|i: int, j: int| 0 <= i < j < entries@.len() implies !same_key(
                    #[trigger] entries@[i],
                    #[trigger] entries@[j].name@,
                    entries@[j].depth as int,
                ) by {
                    assert(entries@[i].name@ == old(entries)@[i].name@ && entries@[i].depth == old(
                        entries,
                    )@[i].depth);
                    assert(entries@[j].name@ == old(entries)@[j].name@ && entries@[j].depth == old(
                        entries,
                    )@[j].depth);
                }
            }
            return ;
        }
        k = k + 1;
    }
    entries.push(ProfileEntry { name, depth, nanos: elapsed, count: 1 });
    proof {
        assert(entries@.take(old(entries)@.len() as int) =~= old(entries)@);
        assert forall|i: int, j: int| 0 <= i < j < entries@.len() implies !same_key(
            #[trigger] entries@[i],
            #[trigger] entries@[j].name@,
            entries@[j].depth as int,
        ) by {
            if j < entries@.len() - 1 {
                assert(entries@[i] == old(entries)@[i] && entries@[j] == old(entries)@[j]);
            } else {
                assert(entries@[i] == old(entries)@[i]);
                assert(!same_key(old(entries)@[i], name@, depth as int));
            }
        }
    }
}

/// Whether a `main` span is open on the stack.
fn stack_has_main(stack: &Vec<(String, u64)>) -> (r: bool)
    ensures
        r == inside_main(stack@),
{
    let mut k: usize = 0;
    while k < stack.len()
        invariant
            0 <= k <= stack@.len(),
            forall|i: int| 0 <= i < k ==> (#[trigger] stack@[i]).0@ != "main"@,
        decreases stack@.len() - k,
    {
        if str_eq(stack[k].0.as_str(), "main") {
            return true;
        }
        k = k + 1;
    }
    false
}

/// String equality by value.
fn str_eq(a: &str, b: &str) -> (r: bool)
    ensures
        r == (a@ == b@),
{
    let sa = a.to_owned();
    let sb = b.to_owned();
    sa == sb
}

/// Drops the frame table and every open span; the persistent table and
/// the last frame time stay. Called at the end of every frame.
pub fn profiler_reset(profiler: &mut Profiler)
    ensures
        final(profiler).stack@.len() == 0,
        final(profiler).frame_entries@.len() == 0,
        final(profiler).persistent_entries@ == old(profiler).persistent_entries@,
        final(profiler).delta_time == old(profiler).delta_time,
        old(profiler).wf() ==> final(profiler).wf(),
{
    profiler.frame_entries = Vec::new();
    profiler.stack = Vec::new();
}

/// The length of the last closed `main` span, in nanoseconds.
pub fn get_delta_time(profiler: &Profiler) -> (t: u64)
    ensures
        t == profiler.delta_time,
{
    profiler.delta_time
}

/// The report rows in print order: the persistent table first, then the
/// frame table, each in first-use order. The host formats and prints
/// them.
pub fn print_profile(profiler: &Profiler) -> (rows: Vec<ProfileEntry>)
    ensures
        rows@.len() == profiler.persistent_entries@.len() + profiler.frame_entries@.len(),
        forall|i: int|
            0 <= i < profiler.persistent_entries@.len() ==> row_matches(
                #[trigger] rows@[i],
                profiler.persistent_entries@[i],
            ),
        forall|i: int|
            0 <= i < profiler.frame_entries@.len() ==> row_matches(
                #[trigger] rows@[profiler.persistent_entries@.len() + i],
                profiler.frame_entries@[i],
            ),
{
    let mut rows: Vec<ProfileEntry> = Vec::new();
    copy_rows(&profiler.persistent_entries, &mut rows);
    let ghost mid = rows@;
    copy_rows(&profiler.frame_entries, &mut rows);
    proof {
        assert forall|i: int| 0 <= i < profiler.persistent_entries@.len() implies row_matches(
            #[trigger] rows@[i],
            profiler.persistent_entries@[i],
        ) by {
            assert(rows@[i] == mid[i]);
            assert(row_matches(mid[0 + i], profiler.persistent_entries@[i]));
        }
    }
    rows
}

/// Field-wise sameness of two rows (their name strings may be different
/// allocations of the same text).
pub open spec fn row_matches(a: ProfileEntry, b: ProfileEntry) -> bool {
    a.name@ == b.name@ && a.depth == b.depth && a.nanos == b.nanos && a.count == b.count
}

fn copy_rows(src: &Vec<ProfileEntry>, dst: &mut Vec<ProfileEntry>)
    ensures
        final(dst)@.len() == old(dst)@.len() + src@.len(),
        forall|i: int| 0 <= i < old(dst)@.len() ==> #[trigger] final(dst)@[i] == old(dst)@[i],
        forall|i: int|
            0 <= i < src@.len() ==> row_matches(#[trigger] final(dst)@[old(dst)@.len() + i], src@[i]),
{
    let mut k: usize = 0;
    while k < src.len()
        invariant
            0 <= k <= src@.len(),
            dst@.len() == old(dst)@.len() + k,
            forall|i: int| 0 <= i < old(dst)@.len() ==> #[trigger] dst@[i] == old(dst)@[i],
            forall|i: int|
                0 <= i < k ==> row_matches(#[trigger] dst@[old(dst)@.len() + i], src@[i]),
        decreases src@.len() - k,
    {
        let e = &src[k];
        dst.push(
            ProfileEntry {
                name: e.name.clone(),
                depth: e.depth,
                nanos: e.nanos,
                count: e.count,
            },
        );
        k = k + 1;
    }
}

} // verus!
