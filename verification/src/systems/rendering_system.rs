use vstd::prelude::*;
use crate::components::{Renderable, RenderableKind};
use crate::store::{EntityStore, StoreModel};

verus! {

/// Side length of one grid tile on screen, in pixels.
pub const TILE_SIZE: u32 = 32;

/// Length of the animation cycle, in milliseconds.
pub const CYCLE_MS: u64 = 1000;

/// How long each animation frame is shown, in milliseconds.
pub const FRAME_MS: u64 = 250;

/// The frame index an elapsed time resolves to: a four-frame, one-second
/// looping cycle.
pub open spec fn frame_index(delta_ms: u64) -> int {
    ((delta_ms as int) % (CYCLE_MS as int)) / (FRAME_MS as int)
}

/// The screen-space placement of one drawn entity.
#[derive(Clone, Copy, Debug, PartialEq, Eq, Structural)]
pub struct Transform {
    pub x: u32,
    pub y: u32,
}

/// One draw command: every transform in `transforms` is drawn with the
/// image `image`, in one batched call, at depth `z`.
#[derive(Clone, Debug, PartialEq)]
pub struct DrawBatch {
    pub z: u8,
    pub image: String,
    pub transforms: Vec<Transform>,
}

/// Mathematical model of one draw batch.
#[verifier::ext_equal]
pub ghost struct BatchModel {
    pub z: u8,
    pub image: Seq<char>,
    pub transforms: Seq<Transform>,
}

/// Mathematical model of one renderable entity, resolved for a frame.
#[verifier::ext_equal]
pub ghost struct RenderItem {
    pub z: u8,
    pub image: Seq<char>,
    pub t: Transform,
}

/// A sequence of draw batches as its model.
pub open spec fn batch_models(s: Seq<DrawBatch>) -> Seq<BatchModel> {
    s.map_values(
        |b: DrawBatch| (BatchModel { z: b.z, image: b.image@, transforms: b.transforms@ }),
    )
}

/// The frame a renderable's frame list resolves to at a frame index:
/// a single frame is always shown, several wrap the index around.
pub open spec fn frame_of(frames: Seq<Seq<char>>, index: int) -> Seq<char> {
    if frames.len() == 1 {
        frames[0]
    } else {
        frames[index % (frames.len() as int)]
    }
}

/// The draw data of renderable entity `i`, for one frame index.
pub open spec fn item_of(m: StoreModel, i: int, fidx: int) -> RenderItem {
    let p = m.positions[i]->0;
    RenderItem {
        z: p.z,
        image: frame_of(m.renderables[i]->0, fidx),
        t: Transform {
            x: ((p.x as int) * (TILE_SIZE as int)) as u32,
            y: ((p.y as int) * (TILE_SIZE as int)) as u32,
        },
    }
}

/// The renderable entities among ids `0 ..= k - 1` — those holding both
/// a position and a renderable — resolved for one frame index, in id
/// order.
pub open spec fn render_items_upto(m: StoreModel, fidx: int, k: int) -> Seq<RenderItem>
    decreases k,
{
    if k <= 0 {
        Seq::<RenderItem>::empty()
    } else {
        let rest = render_items_upto(m, fidx, k - 1);
        if m.positions[k - 1] is Some && m.renderables[k - 1] is Some {
            rest.push(item_of(m, k - 1, fidx))
        } else {
            rest
        }
    }
}

/// Every renderable entity of the store, resolved for one frame index.
pub open spec fn render_items(m: StoreModel, fidx: int) -> Seq<RenderItem> {
    render_items_upto(m, fidx, m.len() as int)
}

/// Index of the first batch drawing `image` at depth `z`, or -1.
pub open spec fn find_batch(bs: Seq<BatchModel>, z: u8, image: Seq<char>) -> int
    decreases bs.len(),
{
    if bs.len() == 0 {
        -1
    } else if bs[0].z == z && bs[0].image == image {
        0
    } else {
        let r = find_batch(bs.drop_first(), z, image);
        if r == -1 {
            -1
        } else {
            r + 1
        }
    }
}

/// Index of the first batch with a depth above `z`: where a batch of a
/// new depth-and-image group is inserted to keep the list z-ordered.
pub open spec fn insert_pos(bs: Seq<BatchModel>, z: u8) -> int
    decreases bs.len(),
{
    if bs.len() == 0 {
        0
    } else if bs[0].z > z {
        0
    } else {
        1 + insert_pos(bs.drop_first(), z)
    }
}

/// The batches after adding one renderable entity: its transform joins
/// the batch of its depth and image if one exists, else a new batch is
/// inserted at the position keeping the list z-ordered.
pub open spec fn add_item(bs: Seq<BatchModel>, it: RenderItem) -> Seq<BatchModel> {
    let k = find_batch(bs, it.z, it.image);
    if k >= 0 {
        bs.update(
            k,
            BatchModel { z: bs[k].z, image: bs[k].image, transforms: bs[k].transforms.push(it.t) },
        )
    } else {
        bs.insert(
            insert_pos(bs, it.z),
            BatchModel { z: it.z, image: it.image, transforms: seq![it.t] },
        )
    }
}

/// The draw batches a sequence of renderable entities folds into, in
/// order.
pub open spec fn batches_of(items: Seq<RenderItem>) -> Seq<BatchModel>
    decreases items.len(),
{
    if items.len() == 0 {
        Seq::<BatchModel>::empty()
    } else {
        add_item(batches_of(items.drop_last()), items.last())
    }
}

/// Batches stand in ascending depth order.
pub open spec fn sorted_z(bs: Seq<BatchModel>) -> bool {
    forall|i: int, j: int| 0 <= i < j < bs.len() ==> bs[i].z <= bs[j].z
}

/// No two batches share both depth and image: one draw call per
/// distinct depth-and-image pair.
pub open spec fn distinct_batches(bs: Seq<BatchModel>) -> bool {
    forall|i: int, j: int|
        0 <= i < j < bs.len() ==> !(bs[i].z == bs[j].z && bs[i].image == bs[j].image)
}

/// Total number of transforms over all batches.
pub open spec fn sum_transforms(bs: Seq<BatchModel>) -> int
    decreases bs.len(),
{
    if bs.len() == 0 {
        0
    } else {
        sum_transforms(bs.drop_last()) + bs.last().transforms.len()
    }
}

proof fn lemma_find_batch(bs: Seq<BatchModel>, z: u8, image: Seq<char>)
    ensures
        find_batch(bs, z, image) == -1 ==> forall|i: int|
            0 <= i < bs.len() ==> !(bs[i].z == z && bs[i].image == image),
        find_batch(bs, z, image) != -1 ==> {
            let r = find_batch(bs, z, image);
            &&& 0 <= r < bs.len()
            &&& bs[r].z == z
            &&& bs[r].image == image
            &&& forall|i: int| 0 <= i < r ==> !(bs[i].z == z && bs[i].image == image)
        },
    decreases bs.len(),
{
    if bs.len() > 0 && !(bs[0].z == z && bs[0].image == image) {
        let tail = bs.drop_first();
        lemma_find_batch(tail, z, image);
        let r = find_batch(bs, z, image);
        if r == -1 {
            assert forall|i: int| 0 <= i < bs.len() implies !(bs[i].z == z && bs[i].image
                == image) by {
                if i > 0 {
                    assert(tail[i - 1] == bs[i]);
                    assert(!(tail[i - 1].z == z && tail[i - 1].image == image));
                }
            }
        } else {
            assert(tail[r - 1] == bs[r]);
            assert forall|i: int| 0 <= i < r implies !(bs[i].z == z && bs[i].image == image) by {
                if i > 0 {
                    assert(tail[i - 1] == bs[i]);
                    assert(!(tail[i - 1].z == z && tail[i - 1].image == image));
                }
            }
        }
    }
}

proof fn lemma_insert_pos(bs: Seq<BatchModel>, z: u8)
    ensures
        0 <= insert_pos(bs, z) <= bs.len(),
        forall|i: int| 0 <= i < insert_pos(bs, z) ==> bs[i].z <= z,
        insert_pos(bs, z) < bs.len() ==> bs[insert_pos(bs, z)].z > z,
    decreases bs.len(),
{
    if bs.len() > 0 && !(bs[0].z > z) {
        let tail = bs.drop_first();
        lemma_insert_pos(tail, z);
        let p = insert_pos(bs, z);
        assert forall|i: int| 0 <= i < p implies bs[i].z <= z by {
            if i > 0 {
                assert(tail[i - 1] == bs[i]);
                assert(tail[i - 1].z <= z);
            }
        }
        if p < bs.len() {
            assert(bs[p] == tail[p - 1]);
        }
    }
}

proof fn lemma_add_item_ordered(bs: Seq<BatchModel>, it: RenderItem)
    requires
        sorted_z(bs),
        distinct_batches(bs),
    ensures
        sorted_z(add_item(bs, it)),
        distinct_batches(add_item(bs, it)),
{
    lemma_find_batch(bs, it.z, it.image);
    let k = find_batch(bs, it.z, it.image);
    if k >= 0 {
        let out = add_item(bs, it);
        assert(forall|i: int| 0 <= i < out.len() ==> out[i].z == bs[i].z);
        assert(forall|i: int| 0 <= i < out.len() ==> out[i].image == bs[i].image);
    } else {
        lemma_insert_pos(bs, it.z);
        let p = insert_pos(bs, it.z);
        let out = add_item(bs, it);
        assert(out.len() == bs.len() + 1);
        assert(forall|i: int| 0 <= i < p ==> out[i] == bs[i]);
        assert(out[p].z == it.z && out[p].image == it.image);
        assert(forall|i: int| p < i < out.len() ==> out[i] == bs[i - 1]);
        assert forall|i: int, j: int| 0 <= i < j < out.len() implies out[i].z <= out[j].z by {
            if i < p && j > p {
                assert(out[i].z <= it.z);
                assert(bs[j - 1].z > it.z || bs[j - 1].z >= bs[p].z);
            }
            if i == p && j > p {
                assert(bs[p].z > it.z);
                assert(bs[j - 1].z >= bs[p].z);
            }
        }
        assert forall|i: int, j: int| 0 <= i < j < out.len() implies !(out[i].z == out[j].z
            && out[i].image == out[j].image) by {
            if i == p {
                assert(!(out[j].z == it.z && out[j].image == it.image));
            }
            if j == p {
                assert(!(out[i].z == it.z && out[i].image == it.image));
            }
        }
    }
}

proof fn lemma_sum_update(bs: Seq<BatchModel>, k: int, b: BatchModel)
    requires
        0 <= k < bs.len(),
        b.transforms.len() == bs[k].transforms.len() + 1,
    ensures
        sum_transforms(bs.update(k, b)) == sum_transforms(bs) + 1,
    decreases bs.len(),
{
    if k == bs.len() - 1 {
        assert(bs.update(k, b).drop_last() =~= bs.drop_last());
    } else {
        assert(bs.update(k, b).drop_last() =~= bs.drop_last().update(k, b));
        lemma_sum_update(bs.drop_last(), k, b);
    }
}

proof fn lemma_sum_insert(bs: Seq<BatchModel>, p: int, b: BatchModel)
    requires
        0 <= p <= bs.len(),
        b.transforms.len() == 1,
    ensures
        sum_transforms(bs.insert(p, b)) == sum_transforms(bs) + 1,
    decreases bs.len(),
{
    if p == bs.len() {
        assert(bs.insert(p, b).drop_last() =~= bs);
        assert(bs.insert(p, b).last() == b);
    } else {
        assert(bs.insert(p, b).drop_last() =~= bs.drop_last().insert(p, b));
        assert(bs.insert(p, b).last() == bs.last());
        lemma_sum_insert(bs.drop_last(), p, b);
    }
}

/// Batching preserves the total entity count: over any renderable
/// entities, the transforms across all folded draw batches sum to
/// exactly the number of entities, and the batches stand in ascending
/// depth order, one per distinct depth-and-image pair.
pub proof fn lemma_batches_preserve_count(items: Seq<RenderItem>)
    ensures
        sum_transforms(batches_of(items)) == items.len(),
        sorted_z(batches_of(items)),
        distinct_batches(batches_of(items)),
    decreases items.len(),
{
    if items.len() > 0 {
        lemma_batches_preserve_count(items.drop_last());
        let bs = batches_of(items.drop_last());
        let it = items.last();
        lemma_add_item_ordered(bs, it);
        lemma_find_batch(bs, it.z, it.image);
        let k = find_batch(bs, it.z, it.image);
        if k >= 0 {
            lemma_sum_update(
                bs,
                k,
                BatchModel {
                    z: bs[k].z,
                    image: bs[k].image,
                    transforms: bs[k].transforms.push(it.t),
                },
            );
        } else {
            lemma_insert_pos(bs, it.z);
            lemma_sum_insert(
                bs,
                insert_pos(bs, it.z),
                BatchModel { z: it.z, image: it.image, transforms: seq![it.t] },
            );
        }
    }
}

/// Resolve which of a renderable's images is shown after `delta_ms`
/// elapsed milliseconds: frame 0 for a static renderable, and the
/// four-frame, one-second looping cycle for an animated one.
pub fn get_image(renderable: &Renderable, delta_ms: u64) -> (p: String)
    requires
        renderable.inv(),
    ensures
        p@ == renderable.spec_path(frame_index(delta_ms)),
        p@ == frame_of(renderable.frames.deep_view(), frame_index(delta_ms)),
{
    let path_index = match renderable.kind() {
        RenderableKind::Static => 0,
        RenderableKind::Animated => ((delta_ms % CYCLE_MS) / FRAME_MS) as usize,
    };
    proof {
        if renderable.spec_kind() == RenderableKind::Animated {
            assert(path_index as int == frame_index(delta_ms));
        }
    }
    renderable.path(path_index)
}

/// Group every renderable entity of the store into draw batches: first
/// by depth layer, then by resolved image, collecting each entity's
/// screen transform. The emitted batches rise in depth (lower layers
/// are drawn first), hold one batch per distinct depth-and-image pair,
/// and keep every entity: the transforms across all batches sum to the
/// number of renderable entities.
pub fn batch(store: &EntityStore, delta_ms: u64) -> (out: Vec<DrawBatch>)
    requires
        store.wf(),
    ensures
        batch_models(out@) == batches_of(render_items(store.model(), frame_index(delta_ms))),
        sorted_z(batch_models(out@)),
        distinct_batches(batch_models(out@)),
        sum_transforms(batch_models(out@)) == render_items(
            store.model(),
            frame_index(delta_ms),
        ).len(),
{
    let ghost m = store.model();
    let ghost fidx = frame_index(delta_ms);
    let n = store.entity_count();
    let mut out: Vec<DrawBatch> = Vec::new();
    let mut id: usize = 0;
    proof {
        assert(batch_models(out@) =~= batches_of(render_items_upto(m, fidx, 0)));
    }
    while id < n
        invariant
            store.wf(),
            m == store.model(),
            fidx == frame_index(delta_ms),
            n == m.len(),
            id <= n,
            batch_models(out@) == batches_of(render_items_upto(m, fidx, id as int)),
        decreases n - id,
    {
        let pos = store.position(id);
        let rend = &store.renderables[id];
        match (pos, rend) {
            (Some(p), Some(r)) => {
                let ghost bs = batch_models(out@);
                let ghost it = item_of(m, id as int, fidx);
                proof {
                    assert(r.inv());
                }
                let image = get_image(r, delta_ms);
                let t = Transform { x: (p.x as u32) * TILE_SIZE, y: (p.y as u32) * TILE_SIZE };
                proof {
                    assert(m.renderables[id as int]->0 == r.frames.deep_view());
                    assert(it == (RenderItem { z: p.z, image: image@, t }));
                    lemma_find_batch(bs, p.z, image@);
                }
                let olen = out.len();
                let mut found: usize = olen;
                let mut k: usize = 0;
                while k < olen
                    invariant
                        0 <= k <= olen,
                        olen == out@.len(),
                        found <= olen,
                        bs == batch_models(out@),
                        found == olen ==> forall|i: int|
                            0 <= i < k ==> !(bs[i].z == p.z && bs[i].image == image@),
                        found < olen ==> bs[found as int].z == p.z && bs[found as int].image
                            == image@ && (forall|i: int|
                            0 <= i < found ==> !(bs[i].z == p.z && bs[i].image == image@)),
                    decreases olen - k,
                {
                    if found == olen {
                        let cand = &out[k];
                        if cand.z == p.z && cand.image == image {
                            found = k;
                        }
                    }
                    k = k + 1;
                }
                if found < olen {
                    proof {
                        assert(find_batch(bs, it.z, it.image) == found as int);
                    }
                    let ghost out0 = out@;
                    let mut b = out.remove(found);
                    b.transforms.push(t);
                    out.insert(found, b);
                    proof {
                        assert(out@ =~= out0.update(found as int, b));
                    }
                } else {
                    proof {
                        assert(find_batch(bs, it.z, it.image) == -1);
                    }
                    let mut ipos: usize = 0;
                    while ipos < olen && out[ipos].z <= p.z
                        invariant
                            0 <= ipos <= olen,
                            olen == out@.len(),
                            bs == batch_models(out@),
                            forall|i: int| 0 <= i < ipos ==> bs[i].z <= p.z,
                        decreases olen - ipos,
                    {
                        ipos = ipos + 1;
                    }
                    proof {
                        lemma_insert_pos(bs, it.z);
                        assert(it.z == p.z);
                        if ipos < olen {
                            assert(bs[ipos as int].z == out@[ipos as int].z);
                            assert(bs[ipos as int].z > p.z);
                        }
                        assert(insert_pos(bs, it.z) == ipos as int);
                    }
                    let mut transforms: Vec<Transform> = Vec::new();
                    transforms.push(t);
                    out.insert(ipos, DrawBatch { z: p.z, image, transforms });
                }
                proof {
                    assert(render_items_upto(m, fidx, id + 1).drop_last() =~= render_items_upto(
                        m,
                        fidx,
                        id as int,
                    ));
                    assert(batch_models(out@) =~= add_item(bs, it));
                }
            },
            _ => {
                proof {
                    assert(render_items_upto(m, fidx, id + 1) =~= render_items_upto(
                        m,
                        fidx,
                        id as int,
                    ));
                }
            },
        }
        id = id + 1;
    }
    proof {
        lemma_batches_preserve_count(render_items(m, fidx));
    }
    out
}

} // verus!
