//! Assets of the catalog: editing and deleting one, and explicit batch
//! mounting: which ids a request names, what each item asks for, and the run
//! that walks the items one by one while the caller does the mounting and
//! checks for cancellation before each item.

use vstd::prelude::*;
use crate::error::{message_with, AppError, AppResult, ErrorKind};
use crate::order::{ascending, sorted_distinct_texts, text_views};
use crate::text::{trim, trim_str};

verus! {

/// An asset's description as it is stored: trimmed, and absent when blank.
pub open spec fn stored_description(description: Option<Seq<char>>) -> Option<Seq<char>> {
    match description {
        Some(d) => if trim(d).len() > 0 {
            Some(trim(d))
        } else {
            None
        },
        None => None,
    }
}

/// The description to store for an asset.
pub fn normalize_asset_description(description: Option<String>) -> (r: Option<String>)
    ensures
        crate::text::opt_view(r) == stored_description(crate::text::opt_view(description)),
{
    match description {
        Some(d) => {
            let t = trim_str(d.as_str());
            if t.unicode_len() > 0 {
                Some(t)
            } else {
                None
            }
        },
        None => None,
    }
}

/// Checks that an asset's description may be edited: the asset must exist
/// (`asset_source_id` is its source when it does), its source must be known,
/// and its source path must exist; `source_path_display` is that path as
/// shown to the user.
pub fn check_asset_description_update(
    asset_id: &str,
    asset_source_id: Option<String>,
    source_known: bool,
    source_path_exists: bool,
    source_path_display: &str,
) -> (r: AppResult<()>)
    ensures
        match asset_source_id {
            None => r matches Err(e) && e.kind() == ErrorKind::NotFound && e.message() == "asset not found: "@
                + asset_id@,
            Some(source_id) => if !source_known {
                r matches Err(e) && e.kind() == ErrorKind::NotFound && e.message() == "source not found: "@
                    + source_id@
            } else if !source_path_exists {
                r matches Err(e) && e.kind() == ErrorKind::NotFound && e.message()
                    == "asset source path does not exist: "@ + source_path_display@
            } else {
                r is Ok
            },
        },
{
    match asset_source_id {
        None => Err(AppError::NotFound(message_with("asset not found: ", asset_id))),
        Some(source_id) => {
            if !source_known {
                Err(AppError::NotFound(message_with("source not found: ", source_id.as_str())))
            } else if !source_path_exists {
                Err(AppError::NotFound(message_with("asset source path does not exist: ", source_path_display)))
            } else {
                Ok(())
            }
        },
    }
}

/// Checks that an asset may be deleted from the catalog: it must exist
/// (`is_skill` tells its kind when it does) and be a skill.
pub fn check_asset_delete(asset_id: &str, is_skill: Option<bool>) -> (r: AppResult<()>)
    ensures
        match is_skill {
            None => r matches Err(e) && e.kind() == ErrorKind::NotFound && e.message() == "asset not found: "@
                + asset_id@,
            Some(skill) => if skill {
                r is Ok
            } else {
                r matches Err(e) && e.kind() == ErrorKind::Validation && e.message()
                    == "only skill assets can be deleted from the catalog"@
            },
        },
{
    match is_skill {
        None => Err(AppError::NotFound(message_with("asset not found: ", asset_id))),
        Some(true) => Ok(()),
        Some(false) => Err(AppError::Validation(String::from_str("only skill assets can be deleted from the catalog"))),
    }
}

/// The trimmed, non-empty ids of a request, in request order.
pub open spec fn requested_ids(ids: Seq<String>) -> Seq<Seq<char>>
    decreases ids.len(),
{
    if ids.len() == 0 {
        Seq::empty()
    } else {
        let before = requested_ids(ids.drop_last());
        let t = trim(ids.last()@);
        if t.len() > 0 {
            before.push(t)
        } else {
            before
        }
    }
}

/// The ids of an explicit batch mount: each id trimmed, empty ones dropped,
/// duplicates merged, in increasing order. A request that names no id is
/// refused.
pub fn normalize_batch_asset_ids(asset_ids: &Vec<String>) -> (r: AppResult<Vec<String>>)
    ensures
        requested_ids(asset_ids@).len() == 0 <==> r is Err,
        r matches Err(e) ==> e.kind() == ErrorKind::Validation && e.message()
            == "asset_ids are required for explicit batch mount"@,
        r matches Ok(v) ==> ascending(text_views(v@)) && forall|y: Seq<char>|
            text_views(v@).contains(y) <==> requested_ids(asset_ids@).contains(y),
{
    let mut kept: Vec<String> = Vec::new();
    let mut i: usize = 0;
    while i < asset_ids.len()
        invariant
            i <= asset_ids@.len(),
            text_views(kept@) == requested_ids(asset_ids@.take(i as int)),
        decreases asset_ids.len() - i,
    {
        let t = trim_str(asset_ids[i].as_str());
        proof {
            assert(asset_ids@.take(i + 1).drop_last() =~= asset_ids@.take(i as int));
        }
        if t.unicode_len() > 0 {
            proof {
                assert(t@.len() > 0);
            }
            assert(text_views(kept@.push(t)) =~= text_views(kept@).push(t@));
            kept.push(t);
        } else {
            proof {
                assert(t@.len() == 0);
            }
        }
        i = i + 1;
    }
    assert(asset_ids@.take(asset_ids@.len() as int) =~= asset_ids@);
    if kept.len() == 0 {
        return Err(AppError::Validation(String::from_str("asset_ids are required for explicit batch mount")));
    }
    proof {
        assert(text_views(kept@)[0] == kept@[0]@);
    }
    Ok(sorted_distinct_texts(&kept))
}

/// What one item of a batch asks for.
pub enum BatchItemStep {
    /// Take the asset's mount off the profile.
    Unmount,
    /// Mount the asset from its source on the profile.
    Mount,
    /// The item fails with this error.
    Fail(AppError),
}

/// The step for one asset id: an unknown asset fails; a known one is
/// unmounted when the batch disables mounts; otherwise it is mounted, which
/// fails when its source is unknown. `asset_source_id` is the source of the
/// asset when the asset is known.
pub fn plan_batch_mount_item(
    asset_id: &str,
    asset_source_id: Option<String>,
    enabled: bool,
    source_known: bool,
) -> (r: BatchItemStep)
    ensures
        match asset_source_id {
            None => r matches BatchItemStep::Fail(e) && e.kind() == ErrorKind::NotFound && e.message()
                == "asset not found: "@ + asset_id@,
            Some(source_id) => if !enabled {
                r is Unmount
            } else if source_known {
                r is Mount
            } else {
                r matches BatchItemStep::Fail(e) && e.kind() == ErrorKind::NotFound && e.message()
                    == "source not found: "@ + source_id@
            },
        },
{
    match asset_source_id {
        None => BatchItemStep::Fail(AppError::NotFound(message_with("asset not found: ", asset_id))),
        Some(source_id) => {
            if !enabled {
                BatchItemStep::Unmount
            } else if source_known {
                BatchItemStep::Mount
            } else {
                BatchItemStep::Fail(
                    AppError::NotFound(message_with("source not found: ", source_id.as_str())),
                )
            }
        },
    }
}

/// An item of a batch that failed, with the text of its error.
pub struct BatchMountItemError {
    pub asset_id: String,
    pub message: String,
}

/// The outcome of a batch: how many items were asked for, how many were
/// applied and how many failed, with the applied results and the failures.
pub struct BatchMountWorkflowResult<T> {
    pub requested_count: usize,
    pub updated_count: usize,
    pub error_count: usize,
    pub results: Vec<T>,
    pub errors: Vec<BatchMountItemError>,
}

/// A batch being worked through item by item. Each item is handed out once,
/// in order; its outcome is recorded before the next one is handed out.
pub struct BatchMountRun<T> {
    asset_ids: Vec<String>,
    position: usize,
    results: Vec<T>,
    errors: Vec<BatchMountItemError>,
}

impl<T> BatchMountRun<T> {
    /// The ids of the batch, in the order they are worked through.
    pub closed spec fn ids(&self) -> Seq<Seq<char>> {
        text_views(self.asset_ids@)
    }

    /// How many items have been recorded.
    pub closed spec fn position(&self) -> nat {
        self.position as nat
    }

    /// The results of the items that were applied, in order.
    pub closed spec fn applied(&self) -> Seq<T> {
        self.results@
    }

    /// The ids of the items that failed, in order.
    pub closed spec fn failed_ids(&self) -> Seq<Seq<char>> {
        self.errors@.map_values(|e: BatchMountItemError| e.asset_id@)
    }

    /// The error texts of the items that failed, in order.
    pub closed spec fn failed_messages(&self) -> Seq<Seq<char>> {
        self.errors@.map_values(|e: BatchMountItemError| e.message@)
    }

    /// Every recorded item is either applied or failed, and nothing else is
    /// counted.
    pub closed spec fn wf(&self) -> bool {
        &&& self.position <= self.asset_ids@.len()
        &&& self.results@.len() + self.errors@.len() == self.position
    }

    /// A run over these ids, with nothing recorded yet.
    pub fn start(asset_ids: Vec<String>) -> (r: Self)
        ensures
            r.wf(),
            r.ids() == text_views(asset_ids@),
            r.position() == 0,
            r.applied().len() == 0,
            r.failed_ids().len() == 0,
    {
        BatchMountRun { asset_ids, position: 0, results: Vec::new(), errors: Vec::new() }
    }

    /// The next item to work on, as its index, the size of the batch and its
    /// id; `None` once every item has been recorded.
    pub fn next_item(&self) -> (r: Option<(usize, usize, String)>)
        requires
            self.wf(),
        ensures
            match r {
                Some((index, total, id)) => {
                    &&& self.position() < self.ids().len()
                    &&& index == self.position()
                    &&& total == self.ids().len()
                    &&& id@ == self.ids()[index as int]
                },
                None => self.position() == self.ids().len(),
            },
    {
        if self.position < self.asset_ids.len() {
            Some((self.position, self.asset_ids.len(), self.asset_ids[self.position].clone()))
        } else {
            None
        }
    }

    /// Admits the current item after the caller's check before it (such as
    /// for cancellation): a failed check ends the batch with its error before
    /// the item is applied, and nothing is recorded; otherwise the item's id
    /// comes back to be applied.
    pub fn admit_current(&self, check: AppResult<()>) -> (r: AppResult<String>)
        requires
            self.wf(),
            self.position() < self.ids().len(),
        ensures
            match check {
                Ok(_) => r matches Ok(id) && id@ == self.ids()[self.position() as int],
                Err(e) => r == Err::<String, AppError>(e),
            },
    {
        match check {
            Ok(_) => {
                assert(self.ids()[self.position() as int] == self.asset_ids@[self.position as int]@);
                Ok(self.asset_ids[self.position].clone())
            },
            Err(e) => Err(e),
        }
    }

    /// Records the outcome of the current item: a result joins the applied
    /// ones, an error joins the failures under the item's id.
    pub fn record(&mut self, outcome: AppResult<T>)
        requires
            old(self).wf(),
            old(self).position() < old(self).ids().len(),
        ensures
            final(self).wf(),
            final(self).ids() == old(self).ids(),
            final(self).position() == old(self).position() + 1,
            match outcome {
                Ok(v) => {
                    &&& final(self).applied() == old(self).applied().push(v)
                    &&& final(self).failed_ids() == old(self).failed_ids()
                    &&& final(self).failed_messages() == old(self).failed_messages()
                },
                Err(e) => {
                    &&& final(self).applied() == old(self).applied()
                    &&& final(self).failed_ids() == old(self).failed_ids().push(
                        old(self).ids()[old(self).position() as int],
                    )
                    &&& final(self).failed_messages() == old(self).failed_messages().push(
                        e.message(),
                    )
                },
            },
    {
        let ghost old_errors = self.errors@;
        let total = self.asset_ids.len();
        assert(self.ids().len() == total);
        match outcome {
            Ok(v) => {
                self.results.push(v);
            },
            Err(e) => {
                let item = BatchMountItemError {
                    asset_id: self.asset_ids[self.position].clone(),
                    message: e.to_message(),
                };
                self.errors.push(item);
                proof {
                    assert(self.errors@.map_values(|x: BatchMountItemError| x.asset_id@)
                        =~= old_errors.map_values(|x: BatchMountItemError| x.asset_id@).push(
                        self.asset_ids@[self.position as int]@,
                    ));
                    assert(self.errors@.map_values(|x: BatchMountItemError| x.message@)
                        =~= old_errors.map_values(|x: BatchMountItemError| x.message@).push(
                        e.message(),
                    ));
                }
            },
        }
        self.position = self.position + 1;
    }

    /// The outcome of the batch. Once every item has been recorded, each of
    /// them is counted exactly once, as applied or as failed.
    pub fn finish(self) -> (r: BatchMountWorkflowResult<T>)
        requires
            self.wf(),
        ensures
            r.requested_count == self.ids().len(),
            r.updated_count == self.applied().len(),
            r.error_count == self.failed_ids().len(),
            r.results@ == self.applied(),
            r.errors@.map_values(|e: BatchMountItemError| e.asset_id@) == self.failed_ids(),
            r.errors@.map_values(|e: BatchMountItemError| e.message@) == self.failed_messages(),
            self.position() == self.ids().len() ==> r.updated_count + r.error_count
                == r.requested_count,
    {
        let requested_count = self.asset_ids.len();
        let updated_count = self.results.len();
        let error_count = self.errors.len();
        BatchMountWorkflowResult {
            requested_count,
            updated_count,
            error_count,
            results: self.results,
            errors: self.errors,
        }
    }
}

/// The results among the outcomes, in order.
pub open spec fn ok_values<T>(outs: Seq<AppResult<T>>) -> Seq<T>
    decreases outs.len(),
{
    if outs.len() == 0 {
        Seq::empty()
    } else {
        ok_values(outs.drop_last()) + match outs.last() {
            Ok(v) => seq![v],
            Err(_) => Seq::empty(),
        }
    }
}

/// The ids of the items whose outcome is a failure, in order; `ids` holds
/// the id of each item, aligned with the outcomes.
pub open spec fn failure_ids<T>(ids: Seq<Seq<char>>, outs: Seq<AppResult<T>>) -> Seq<Seq<char>>
    decreases outs.len(),
{
    if outs.len() == 0 {
        Seq::empty()
    } else {
        failure_ids(ids, outs.drop_last()) + match outs.last() {
            Ok(_) => Seq::empty(),
            Err(_) => seq![ids[outs.len() - 1]],
        }
    }
}

/// The messages of the failures among the outcomes, in order.
pub open spec fn failure_messages<T>(outs: Seq<AppResult<T>>) -> Seq<Seq<char>>
    decreases outs.len(),
{
    if outs.len() == 0 {
        Seq::empty()
    } else {
        failure_messages(outs.drop_last()) + match outs.last() {
            Ok(_) => Seq::empty(),
            Err(e) => seq![e.message()],
        }
    }
}

/// The first `strs.len()` items of the batch each passed the pre-check
/// (`checks` holds what it answered) and were then applied, giving these
/// outcomes.
pub open spec fn batch_trace<T, BeforeItem, ApplyItem>(
    before_item: BeforeItem,
    apply_item: ApplyItem,
    ids: Seq<String>,
    strs: Seq<&str>,
    checks: Seq<AppResult<()>>,
    outs: Seq<AppResult<T>>,
) -> bool where
    BeforeItem: FnMut(usize, usize, &str) -> AppResult<()>,
    ApplyItem: FnMut(&str) -> AppResult<T>,
 {
    &&& strs.len() == outs.len()
    &&& checks.len() == outs.len()
    &&& strs.len() <= ids.len()
    &&& forall|j: int|
        0 <= j < strs.len() ==> {
            &&& (#[trigger] strs[j])@ == ids[j]@
            &&& checks[j] is Ok
            &&& call_ensures(before_item, (j as usize, ids.len() as usize, strs[j]), checks[j])
            &&& call_ensures(apply_item, (strs[j],), outs[j])
        }
}

/// Runs a batch over the ids in order. Before each item the pre-check is
/// asked (with the item's index, the size of the batch and its id); the
/// first pre-check that fails ends the batch with its error, before that
/// item or any later one is applied. Otherwise each item is applied, and
/// its result or failure is kept, in order.
pub fn run_batch_items<T, BeforeItem, ApplyItem>(
    asset_ids: &[String],
    before_item: &mut BeforeItem,
    apply_item: ApplyItem,
) -> (r: AppResult<(Vec<T>, Vec<BatchMountItemError>)>)
    where
        BeforeItem: FnMut(usize, usize, &str) -> AppResult<()>,
        ApplyItem: FnMut(&str) -> AppResult<T>,
    requires
        forall|index: usize, id: &str|
            index < asset_ids@.len() && id@ == asset_ids@[index as int]@ ==> #[trigger] call_requires(
                *old(before_item),
                (index, asset_ids@.len() as usize, id),
            ),
        forall|index: usize, id: &str|
            #![trigger call_requires(apply_item, (id,)), asset_ids@[index as int]]
            index < asset_ids@.len() && id@ == asset_ids@[index as int]@ ==> call_requires(
                apply_item,
                (id,),
            ),
    ensures
        r matches Ok((results, errors)) ==> exists|strs: Seq<&str>, checks: Seq<AppResult<()>>, outs: Seq<AppResult<T>>|
            #![trigger batch_trace(*old(before_item), apply_item, asset_ids@, strs, checks, outs)]
            {
                &&& batch_trace(*old(before_item), apply_item, asset_ids@, strs, checks, outs)
                &&& outs.len() == asset_ids@.len()
                &&& results@ == ok_values(outs)
                &&& errors@.map_values(|e: BatchMountItemError| e.asset_id@) == failure_ids(
                    text_views(asset_ids@),
                    outs,
                )
                &&& errors@.map_values(|e: BatchMountItemError| e.message@) == failure_messages(outs)
            },
        r matches Err(e) ==> exists|strs: Seq<&str>, checks: Seq<AppResult<()>>, outs: Seq<AppResult<T>>, id: &str|
            #![trigger batch_trace(*old(before_item), apply_item, asset_ids@, strs, checks, outs), id.view()]
            {
                &&& batch_trace(*old(before_item), apply_item, asset_ids@, strs, checks, outs)
                &&& outs.len() < asset_ids@.len()
                &&& id@ == asset_ids@[outs.len() as int]@
                &&& call_ensures(
                    *old(before_item),
                    (outs.len() as usize, asset_ids@.len() as usize, id),
                    Err::<(), AppError>(e),
                )
            },
{
    broadcast use vstd::function::group_function_axioms;

    let ghost b = *before_item;
    let ghost a = apply_item;
    let mut apply = apply_item;
    let mut ids: Vec<String> = Vec::new();
    let mut c: usize = 0;
    while c < asset_ids.len()
        invariant
            c <= asset_ids@.len(),
            ids@ == asset_ids@.take(c as int),
        decreases asset_ids.len() - c,
    {
        ids.push(asset_ids[c].clone());
        assert(asset_ids@.take(c + 1) =~= asset_ids@.take(c as int).push(asset_ids@[c as int]));
        c = c + 1;
    }
    assert(asset_ids@.take(asset_ids@.len() as int) =~= asset_ids@);
    let mut run: BatchMountRun<T> = BatchMountRun::start(ids);
    let total = asset_ids.len();
    let mut index: usize = 0;
    let ghost mut strs: Seq<&str> = Seq::empty();
    let ghost mut checks: Seq<AppResult<()>> = Seq::empty();
    let ghost mut outs: Seq<AppResult<T>> = Seq::empty();
    while index < total
        invariant
            run.wf(),
            total == asset_ids@.len(),
            run.ids() == text_views(asset_ids@),
            run.position() == index,
            index <= total,
            *before_item == b,
            b == *old(before_item),
            apply == a,
            a == apply_item,
            forall|i: usize, id: &str|
                i < asset_ids@.len() && id@ == asset_ids@[i as int]@ ==> #[trigger] call_requires(
                    b,
                    (i, asset_ids@.len() as usize, id),
                ),
            forall|i: usize, id: &str|
                #![trigger call_requires(a, (id,)), asset_ids@[i as int]]
                i < asset_ids@.len() && id@ == asset_ids@[i as int]@ ==> call_requires(a, (id,)),
            outs.len() == index,
            batch_trace(b, a, asset_ids@, strs, checks, outs),
            run.applied() == ok_values(outs),
            run.failed_ids() == failure_ids(text_views(asset_ids@), outs),
            run.failed_messages() == failure_messages(outs),
        decreases total - index,
    {
        let id = asset_ids[index].as_str();
        assert(id@ == asset_ids@[index as int]@);
        assert(call_requires(b, (index, asset_ids@.len() as usize, id)));
        assert(call_requires(a, (id,)));
        let check = before_item(index, total, id);
        let ghost chk = check;
        assert(call_ensures(b, (index, total, id), check));
        assert(*before_item == b);
        if let Err(e) = check {
            assert(id@ == asset_ids@[outs.len() as int]@);
            assert(exists|s2: Seq<&str>, c2: Seq<AppResult<()>>, o2: Seq<AppResult<T>>, i2: &str|
                #![trigger batch_trace(b, a, asset_ids@, s2, c2, o2), i2.view()]
                {
                    &&& batch_trace(b, a, asset_ids@, s2, c2, o2)
                    &&& o2.len() < asset_ids@.len()
                    &&& i2@ == asset_ids@[o2.len() as int]@
                    &&& call_ensures(b, (o2.len() as usize, asset_ids@.len() as usize, i2), Err::<(), AppError>(e))
                });
            return Err(e);
        }
        let outcome = apply(id);
        assert(call_ensures(a, (id,), outcome));
        assert(apply == a);
        let ghost old_outs = outs;
        let ghost old_strs = strs;
        let ghost old_checks = checks;
        proof {
            outs = outs.push(outcome);
            strs = strs.push(id);
            checks = checks.push(chk);
            assert(outs.drop_last() =~= old_outs);
            assert(text_views(asset_ids@)[index as int] == asset_ids@[index as int]@);
            assert forall|j: int| 0 <= j < strs.len() implies {
                &&& (#[trigger] strs[j])@ == asset_ids@[j]@
                &&& checks[j] is Ok
                &&& call_ensures(b, (j as usize, asset_ids@.len() as usize, strs[j]), checks[j])
                &&& call_ensures(a, (strs[j],), outs[j])
            } by {
                if j < index {
                    assert(strs[j] == old_strs[j] && outs[j] == old_outs[j] && checks[j] == old_checks[j]);
                } else {
                    assert(strs[j] == id && outs[j] == outcome && checks[j] == chk);
                    assert(chk is Ok);
                    assert((j as usize) == index);
                }
            }
        }
        run.record(outcome);
        index = index + 1;
    }
    let result = run.finish();
    assert(batch_trace(b, a, asset_ids@, strs, checks, outs));
    Ok((result.results, result.errors))
}

} // verus!
