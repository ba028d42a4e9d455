//! Contacts between the player's hitbox and the solid voxels of a chunk:
//! gathering, ordering deepest first, and pushing the player out of them
//! one axis at a time.

use vstd::prelude::*;
use crate::geom::{abs, box_push, boxes_overlap, comp, disp_box_box, BBox, Vec3};
use crate::voxel::{voxel_box_ok, Chunk};
use crate::particle::saturated;
use crate::player::saturate;

verus! {

/// A contact between body `a` and body `b`, with the translation that
/// separates them.
#[derive(Clone, Copy, Debug)]
pub struct Contact<T: Copy> {
    pub a: T,
    pub b: T,
    pub mtv: Vec3,
}

/// The contacts found in one tick.
pub struct Contacts {
    pub block_player: Vec<Contact<usize>>,
    pub particle_block: Vec<Contact<usize>>,
}

/// Squared length of a vector.
pub open spec fn mag2(v: Vec3) -> int {
    v.x * v.x + v.y * v.y + v.z * v.z
}

/// The contacts are ordered by squared length of their translation, longest
/// first.
pub open spec fn sorted_deepest_first(cs: Seq<Contact<usize>>) -> bool {
    forall|i: int, j: int| 0 <= i < j < cs.len() ==> mag2(cs[i].mtv) >= mag2(cs[j].mtv)
}

/// The axis of smallest displacement, preferring y, then x, then z on ties.
pub open spec fn least_axis(v: Vec3) -> int {
    if abs(v.y as int) <= abs(v.x as int) && abs(v.y as int) <= abs(v.z as int) {
        1
    } else if abs(v.x as int) <= abs(v.y as int) && abs(v.x as int) <= abs(v.z as int) {
        0
    } else {
        2
    }
}

/// `v` with every component but the one on axis `a` set to zero.
pub open spec fn only_axis(v: Vec3, a: int) -> Vec3 {
    Vec3 {
        x: if a == 0 { v.x } else { 0 },
        y: if a == 1 { v.y } else { 0 },
        z: if a == 2 { v.z } else { 0 },
    }
}

/// `b` moved by `d` along axis `a`, the moved coordinate saturated into the
/// accepted range.
pub open spec fn shift(b: BBox, a: int, d: int) -> BBox {
    BBox {
        center: Vec3 {
            x: if a == 0 { saturate(b.center.x + d) as i64 } else { b.center.x },
            y: if a == 1 { saturate(b.center.y + d) as i64 } else { b.center.y },
            z: if a == 2 { saturate(b.center.z + d) as i64 } else { b.center.z },
        },
        halfwidth: b.halfwidth,
    }
}

/// The translation that pushes the player out of a voxel.
pub open spec fn push_out(player: BBox, voxel: BBox) -> Vec3 {
    Vec3 {
        x: box_push(player, voxel, 0) as i64,
        y: box_push(player, voxel, 1) as i64,
        z: box_push(player, voxel, 2) as i64,
    }
}

/// The contacts between the player and the solid cells among the first `n`
/// cells of a chunk, in cell order.
pub open spec fn gathered(data: Seq<u8>, voxels: Seq<BBox>, player: BBox, n: int) -> Seq<
    Contact<usize>,
>
    decreases n,
{
    if n <= 0 {
        Seq::empty()
    } else {
        let prev = gathered(data, voxels, player, n - 1);
        if data[n - 1] != 0 && boxes_overlap(player, voxels[n - 1]) {
            prev.push(Contact { a: (n - 1) as usize, b: 0, mtv: push_out(player, voxels[n - 1]) })
        } else {
            prev
        }
    }
}

/// One restitution step. The axis is the one of least displacement in the
/// contact's own translation, and the contact keeps only that component.
/// When the player still overlaps the contact's voxel, it is pushed by that
/// component along that axis; otherwise it stays where it is.
pub open spec fn resolve_step(player: BBox, c: Contact<usize>, voxels: Seq<BBox>) -> (
    BBox,
    Contact<usize>,
) {
    let a = least_axis(c.mtv);
    let moved = if c.a < voxels.len() && boxes_overlap(player, voxels[c.a as int]) {
        shift(player, a, comp(c.mtv, a))
    } else {
        player
    };
    (moved, Contact { a: c.a, b: c.b, mtv: only_axis(c.mtv, a) })
}

/// The player after the first `n` contacts of `cs` have been resolved.
pub open spec fn player_after(player: BBox, cs: Seq<Contact<usize>>, voxels: Seq<BBox>, n: int) -> BBox
    decreases n,
{
    if n <= 0 {
        player
    } else {
        resolve_step(player_after(player, cs, voxels, n - 1), cs[n - 1], voxels).0
    }
}

/// The contacts of `cs` as they stand after restitution.
pub open spec fn resolved_contacts(player: BBox, cs: Seq<Contact<usize>>, voxels: Seq<BBox>) -> Seq<
    Contact<usize>,
> {
    Seq::new(cs.len(), |k: int| resolve_step(player_after(player, cs, voxels, k), cs[k], voxels).1)
}

/// Restitution of the contacts `before` in the deepest-first order `s`
/// moves the player to `final_player` and leaves the contacts `after`.
pub open spec fn restitution_outcome(
    voxels: Seq<BBox>,
    player: BBox,
    before: Seq<Contact<usize>>,
    s: Seq<Contact<usize>>,
    final_player: BBox,
    after: Seq<Contact<usize>>,
) -> bool {
    &&& s.to_multiset() == before.to_multiset()
    &&& sorted_deepest_first(s)
    &&& final_player == player_after(player, s, voxels, s.len() as int)
    &&& after == resolved_contacts(player, s, voxels)
}

/// The full outcome of a collision tick against `chunk`, for a given
/// deepest-first ordering `s` of the gathered contacts.
#[verifier::opaque]
pub open spec fn tick_outcome(
    chunk: Chunk,
    player: BBox,
    s: Seq<Contact<usize>>,
    final_player: BBox,
    contacts: Seq<Contact<usize>>,
) -> bool {
    restitution_outcome(
        chunk.voxels@,
        player,
        gathered(chunk.data@, chunk.voxels@, player, chunk.voxels@.len() as int),
        s,
        final_player,
        contacts,
    )
}

/// Some deepest-first ordering of the contacts gathered against `chunk`
/// yields the player `final_player` and the contacts `contacts`.
pub open spec fn tick_result(
    chunk: Chunk,
    player: BBox,
    final_player: BBox,
    contacts: Seq<Contact<usize>>,
) -> bool {
    exists|s: Seq<Contact<usize>>| tick_outcome(chunk, player, s, final_player, contacts)
}

fn abs_u128(v: i64) -> (r: u128)
    ensures
        r == abs(v as int),
{
    if v < 0 {
        (-(v as i128)) as u128
    } else {
        v as u128
    }
}

fn mag2_of(v: &Vec3) -> (r: u128)
    ensures
        r == mag2(*v),
{
    let x = abs_u128(v.x);
    let y = abs_u128(v.y);
    let z = abs_u128(v.z);
    assert(x * x <= 0x4000_0000_0000_0000_0000_0000_0000_0000) by (nonlinear_arith)
        requires
            x <= 0x8000_0000_0000_0000,
    ;
    assert(y * y <= 0x4000_0000_0000_0000_0000_0000_0000_0000) by (nonlinear_arith)
        requires
            y <= 0x8000_0000_0000_0000,
    ;
    assert(z * z <= 0x4000_0000_0000_0000_0000_0000_0000_0000) by (nonlinear_arith)
        requires
            z <= 0x8000_0000_0000_0000,
    ;
    assert(x * x == v.x * v.x) by (nonlinear_arith)
        requires
            x == abs(v.x as int),
    ;
    assert(y * y == v.y * v.y) by (nonlinear_arith)
        requires
            y == abs(v.y as int),
    ;
    assert(z * z == v.z * v.z) by (nonlinear_arith)
        requires
            z == abs(v.z as int),
    ;
    x * x + y * y + z * z
}

pub(crate) fn least_axis_of(v: &Vec3) -> (r: usize)
    ensures
        r == least_axis(*v),
{
    let x = abs_u128(v.x);
    let y = abs_u128(v.y);
    let z = abs_u128(v.z);
    if y <= x && y <= z {
        1
    } else if x <= y && x <= z {
        0
    } else {
        2
    }
}

pub(crate) fn keep_axis(v: &Vec3, a: usize) -> (r: Vec3)
    ensures
        r == only_axis(*v, a as int),
{
    Vec3 {
        x: if a == 0 { v.x } else { 0 },
        y: if a == 1 { v.y } else { 0 },
        z: if a == 2 { v.z } else { 0 },
    }
}

proof fn lemma_swap_multiset<A>(s: Seq<A>, i: int, j: int)
    requires
        0 <= i < s.len(),
        0 <= j < s.len(),
    ensures
        s.update(i, s[j]).update(j, s[i]).to_multiset() == s.to_multiset(),
{
    broadcast use vstd::seq_lib::to_multiset_update, vstd::multiset::group_multiset_axioms;
    let s1 = s.update(i, s[j]);
    assert(s.to_multiset().contains(s[i])) by {
        broadcast use vstd::seq_lib::to_multiset_contains;
        assert(s.contains(s[i]));
    }
    assert(s1.to_multiset() == s.to_multiset().insert(s[j]).remove(s[i]));
    assert(s1[j] == if i == j { s[j] } else { s[j] });
    assert(s1.update(j, s[i]).to_multiset() == s1.to_multiset().insert(s[i]).remove(s1[j]));
    assert(s1.update(j, s[i]).to_multiset() =~= s.to_multiset());
}

impl Contacts {
    /// No contacts.
    pub fn new() -> (r: Self)
        ensures
            r.block_player@.len() == 0,
            r.particle_block@.len() == 0,
    {
        Self { block_player: Vec::new(), particle_block: Vec::new() }
    }

    /// Orders both lists deepest first: by squared length of the
    /// translation, longest first.
    pub fn sort(&mut self)
        ensures
            sorted_deepest_first(final(self).block_player@),
            sorted_deepest_first(final(self).particle_block@),
            final(self).block_player@.to_multiset() == old(self).block_player@.to_multiset(),
            final(self).particle_block@.to_multiset() == old(self).particle_block@.to_multiset(),
    {
        sort_deepest_first(&mut self.block_player);
        sort_deepest_first(&mut self.particle_block);
    }

    /// Removes every contact.
    pub fn clear(&mut self)
        ensures
            final(self).block_player@.len() == 0,
            final(self).particle_block@.len() == 0,
    {
        self.block_player.clear();
        self.particle_block.clear();
    }
}

fn sort_deepest_first(v: &mut Vec<Contact<usize>>)
    ensures
        sorted_deepest_first(final(v)@),
        final(v)@.to_multiset() == old(v)@.to_multiset(),
{
    let n = v.len();
    let mut i: usize = 1;
    if n == 0 {
        return;
    }
    while i < n
        invariant
            1 <= i <= n,
            n == v@.len(),
            v@.to_multiset() == old(v)@.to_multiset(),
            sorted_deepest_first(v@.take(i as int)),
        decreases n - i,
    {
        assert forall|a: int, b: int| 0 <= a < b < i implies mag2(v@[a].mtv) >= mag2(
            v@[b].mtv,
        ) by {
            assert(v@.take(i as int)[a] == v@[a]);
            assert(v@.take(i as int)[b] == v@[b]);
        }
        let mut j: usize = i;
        while j > 0 && mag2_of(&v[j - 1].mtv) < mag2_of(&v[j].mtv)
            invariant
                0 <= j <= i < n,
                n == v@.len(),
                v@.to_multiset() == old(v)@.to_multiset(),
                forall|a: int, b: int|
                    0 <= a < b <= i && b != j && a != j ==> mag2(v@[a].mtv) >= mag2(v@[b].mtv),
                forall|a: int, b: int| j <= a < b <= i ==> mag2(v@[a].mtv) >= mag2(v@[b].mtv),
                j < i && 0 < j ==> mag2(v@[j - 1].mtv) >= mag2(v@[j + 1].mtv),
            decreases j,
        {
            let lo = v[j - 1];
            let hi = v[j];
            proof {
                lemma_swap_multiset(v@, j - 1, j as int);
            }
            v.set(j - 1, hi);
            v.set(j, lo);
            j = j - 1;
        }
        let ghost t = v@.take(i + 1);
        assert forall|a: int, b: int| 0 <= a < b < i + 1 implies #[trigger] mag2(t[a].mtv) >= #[trigger] mag2(
            t[b].mtv,
        ) by {
            assert(t[a] == v@[a]);
            assert(t[b] == v@[b]);
        }
        i = i + 1;
    }
    assert(v@.take(n as int) =~= v@);
}

/// The contacts between `player` and the solid cells of `chunk`, appended
/// to `into` in cell order.
fn gather_contacts1(chunk: &Chunk, player: &BBox, into: &mut Contacts)
    requires
        chunk.wf(),
        player.wf(),
    ensures
        final(into).block_player@ == old(into).block_player@ + gathered(
            chunk.data@,
            chunk.voxels@,
            *player,
            chunk.voxels@.len() as int,
        ),
        final(into).particle_block@ == old(into).particle_block@,
{
    let n = chunk.voxels.len();
    let mut ai: usize = 0;
    while ai < n
        invariant
            chunk.wf(),
            player.wf(),
            n == chunk.voxels@.len(),
            ai <= n,
            into.block_player@ == old(into).block_player@ + gathered(
                chunk.data@,
                chunk.voxels@,
                *player,
                ai as int,
            ),
            into.particle_block@ == old(into).particle_block@,
        decreases n - ai,
    {
        let a = &chunk.voxels[ai];
        assert(voxel_box_ok(chunk.voxels@[ai as int]));
        if chunk.data_at(ai) != 0 {
            if let Some(disp) = disp_box_box(player, a) {
                into.block_player.push(Contact { a: ai, b: 0, mtv: disp });
            }
        }
        proof {
            let g = gathered(chunk.data@, chunk.voxels@, *player, ai + 1);
            assert(into.block_player@ =~= old(into).block_player@ + g);
        }
        ai = ai + 1;
    }
}

/// One restitution step keeps the player's box valid.
proof fn lemma_resolve_step_wf(player: BBox, c: Contact<usize>, voxels: Seq<BBox>)
    requires
        player.wf(),
    ensures
        resolve_step(player, c, voxels).0.wf(),
{
}

/// Resolves the contacts in their current order, pushing the player out of
/// each voxel that it still overlaps.
fn resolve_contacts(chunk: &Chunk, player: &mut BBox, contacts: &mut Contacts)
    requires
        chunk.wf(),
        old(player).wf(),
    ensures
        final(player).wf(),
        *final(player) == player_after(
            *old(player),
            old(contacts).block_player@,
            chunk.voxels@,
            old(contacts).block_player@.len() as int,
        ),
        final(contacts).block_player@ == resolved_contacts(
            *old(player),
            old(contacts).block_player@,
            chunk.voxels@,
        ),
        final(contacts).particle_block@ == old(contacts).particle_block@,
{
    let ghost p0 = *player;
    let ghost cs = contacts.block_player@;
    let ghost voxels = chunk.voxels@;
    let n = contacts.block_player.len();
    let mut k: usize = 0;
    while k < n
        invariant
            chunk.wf(),
            voxels == chunk.voxels@,
            k <= n,
            n == cs.len(),
            player.wf(),
            *player == player_after(p0, cs, voxels, k as int),
            contacts.block_player@.len() == n,
            forall|j: int|
                0 <= j < k ==> #[trigger] contacts.block_player@[j] == resolved_contacts(
                    p0,
                    cs,
                    voxels,
                )[j],
            forall|j: int| k <= j < n ==> #[trigger] contacts.block_player@[j] == cs[j],
            contacts.particle_block@ == old(contacts).particle_block@,
        decreases n - k,
    {
        let c = contacts.block_player[k];
        proof {
            lemma_resolve_step_wf(*player, c, voxels);
        }
        let a = least_axis_of(&c.mtv);
        let mut still_overlaps = false;
        if c.a < chunk.voxels.len() {
            assert(voxel_box_ok(voxels[c.a as int]));
            still_overlaps = disp_box_box(player, &chunk.voxels[c.a]).is_some();
        }
        if still_overlaps {
            if a == 0 {
                player.center.x = saturated(player.center.x as i128 + c.mtv.x as i128);
            } else if a == 1 {
                player.center.y = saturated(player.center.y as i128 + c.mtv.y as i128);
            } else {
                player.center.z = saturated(player.center.z as i128 + c.mtv.z as i128);
            }
        }
        let out = Contact { a: c.a, b: c.b, mtv: keep_axis(&c.mtv, a) };
        contacts.block_player.set(k, out);
        k = k + 1;
    }
    assert(contacts.block_player@ =~= resolved_contacts(p0, cs, voxels));
}

/// Orders the contacts deepest first and resolves them in that order.
fn restitute(chunk: &Chunk, player: &mut BBox, contacts: &mut Contacts)
    requires
        chunk.wf(),
        old(player).wf(),
    ensures
        final(player).wf(),
        exists|s: Seq<Contact<usize>>|
            restitution_outcome(
                chunk.voxels@,
                *old(player),
                old(contacts).block_player@,
                s,
                *final(player),
                final(contacts).block_player@,
            ),
        final(contacts).particle_block@.len() == old(contacts).particle_block@.len(),
{
    let ghost pb = contacts.particle_block@;
    contacts.sort();
    proof {
        vstd::seq_lib::to_multiset_len(pb);
        vstd::seq_lib::to_multiset_len(contacts.particle_block@);
    }
    let ghost s = contacts.block_player@;
    resolve_contacts(chunk, player, contacts);
    assert(restitution_outcome(
        chunk.voxels@,
        *old(player),
        old(contacts).block_player@,
        s,
        *player,
        contacts.block_player@,
    ));
}

/// One collision tick against one chunk: forgets the previous contacts,
/// gathers the contacts between the player and the chunk's solid cells,
/// orders them deepest first and pushes the player out of them. The chunk's
/// boxes must have been generated for any contact to be found.
pub fn update(chunk: &Chunk, player: &mut BBox, contacts: &mut Contacts)
    requires
        chunk.wf(),
        old(player).wf(),
    ensures
        final(player).wf(),
        tick_result(*chunk, *old(player), *final(player), final(contacts).block_player@),
        final(contacts).particle_block@.len() == 0,
{
    contacts.clear();
    gather_contacts1(chunk, player, contacts);
    assert(contacts.block_player@ =~= gathered(
        chunk.data@,
        chunk.voxels@,
        *old(player),
        chunk.voxels@.len() as int,
    ));
    let ghost gathered_now = contacts.block_player@;
    restitute(chunk, player, contacts);
    proof {
        let s = choose|s: Seq<Contact<usize>>|
            restitution_outcome(
                chunk.voxels@,
                *old(player),
                gathered_now,
                s,
                *player,
                contacts.block_player@,
            );
        reveal(tick_outcome);
        assert(tick_outcome(*chunk, *old(player), s, *player, contacts.block_player@));
    }
}

} // verus!
