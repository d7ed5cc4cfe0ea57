//! Replicated pose state and its per-tick reconciliation.
//!
//! Poses are carried as fixed-point integers: the host application chooses a
//! scale and converts its floating-point vectors at the boundary. Keeping the
//! core integral lets every reconciliation step be verified exactly.

use vstd::arithmetic::div_mod::lemma_div_is_ordered;
use vstd::arithmetic::div_mod::lemma_div_multiples_vanish;
use vstd::arithmetic::div_mod::lemma_div_pos_is_pos;
use vstd::arithmetic::mul::lemma_mul_inequality;
use vstd::prelude::*;

verus! {

/// A three-component fixed-point vector.
#[derive(PartialEq, Eq, Structural, Clone, Copy, Debug)]
pub struct Vec3Fixed {
    pub x: i32,
    pub y: i32,
    pub z: i32,
}

impl Vec3Fixed {
    pub open spec fn spec_zero() -> Vec3Fixed {
        Vec3Fixed { x: 0, y: 0, z: 0 }
    }

    pub fn zero() -> (r: Vec3Fixed)
        ensures
            r == Vec3Fixed::spec_zero(),
    {
        Vec3Fixed { x: 0, y: 0, z: 0 }
    }
}

/// A four-component fixed-point quaternion.
#[derive(PartialEq, Eq, Structural, Clone, Copy, Debug)]
pub struct QuatFixed {
    pub x: i32,
    pub y: i32,
    pub z: i32,
    pub w: i32,
}

impl QuatFixed {
    /// The identity rotation, with `w` at the fixed-point unit.
    pub open spec fn spec_identity(unit: i32) -> QuatFixed {
        QuatFixed { x: 0, y: 0, z: 0, w: unit }
    }

    pub fn identity(unit: i32) -> (r: QuatFixed)
        ensures
            r == QuatFixed::spec_identity(unit),
    {
        QuatFixed { x: 0, y: 0, z: 0, w: unit }
    }
}

/// A full pose: translation, rotation and scale.
#[derive(PartialEq, Eq, Structural, Clone, Copy, Debug)]
pub struct Transform {
    pub translation: Vec3Fixed,
    pub rotation: QuatFixed,
    pub scale: Vec3Fixed,
}

/// Per-object replicated pose state: the targets last received from the
/// owner, and per-channel toggles deciding what is synchronized.
#[derive(PartialEq, Eq, Structural, Clone, Copy, Debug)]
pub struct NetworkedTransform {
    pub target_position: Vec3Fixed,
    pub target_rotation: QuatFixed,
    pub target_scale: Vec3Fixed,
    pub sync_position: bool,
    pub sync_rotation: bool,
    pub sync_scale: bool,
}

impl NetworkedTransform {
    /// Targets taken from a spawn-time pose, all channels synchronized, so
    /// interpolation never starts from a stale default.
    pub open spec fn spec_seeded(t: Transform) -> NetworkedTransform {
        NetworkedTransform {
            target_position: t.translation,
            target_rotation: t.rotation,
            target_scale: t.scale,
            sync_position: true,
            sync_rotation: true,
            sync_scale: true,
        }
    }

    pub fn seeded(t: Transform) -> (r: NetworkedTransform)
        ensures
            r == NetworkedTransform::spec_seeded(t),
    {
        NetworkedTransform {
            target_position: t.translation,
            target_rotation: t.rotation,
            target_scale: t.scale,
            sync_position: true,
            sync_rotation: true,
            sync_scale: true,
        }
    }

    /// Overwrite only the channels present in an update; absent channels mean
    /// "unchanged", and the sync toggles are never touched by the network.
    pub fn apply_update(
        &mut self,
        position: Option<Vec3Fixed>,
        rotation: Option<QuatFixed>,
        scale: Option<Vec3Fixed>,
    )
        ensures
            final(self).target_position == if position is Some {
                position->0
            } else {
                old(self).target_position
            },
            final(self).target_rotation == if rotation is Some {
                rotation->0
            } else {
                old(self).target_rotation
            },
            final(self).target_scale == if scale is Some {
                scale->0
            } else {
                old(self).target_scale
            },
            final(self).sync_position == old(self).sync_position,
            final(self).sync_rotation == old(self).sync_rotation,
            final(self).sync_scale == old(self).sync_scale,
    {
        if let Some(p) = position {
            self.target_position = p;
        }
        if let Some(r) = rotation {
            self.target_rotation = r;
        }
        if let Some(s) = scale {
            self.target_scale = s;
        }
    }
}

impl Default for NetworkedTransform {
    /// Zero targets, the identity rotation at unit 1, everything synchronized.
    fn default() -> (r: Self)
        ensures
            r == (NetworkedTransform {
                target_position: Vec3Fixed::spec_zero(),
                target_rotation: QuatFixed::spec_identity(1),
                target_scale: Vec3Fixed::spec_zero(),
                sync_position: true,
                sync_rotation: true,
                sync_scale: true,
            }),
    {
        NetworkedTransform {
            target_position: Vec3Fixed::zero(),
            target_rotation: QuatFixed::identity(1),
            target_scale: Vec3Fixed::zero(),
            sync_position: true,
            sync_rotation: true,
            sync_scale: true,
        }
    }
}

/// An inbound pose sample routed by the dispatcher, waiting for the next
/// reconciliation pass.
#[derive(Clone, Debug)]
pub struct TransformUpdate {
    pub network_identity: crate::NetworkIdentity,
    pub position: Option<Vec3Fixed>,
    pub rotation: Option<QuatFixed>,
    pub scale: Option<Vec3Fixed>,
}

/// One exponential-smoothing step from `current` toward `target` with rate
/// `num / den`, in exact integer arithmetic.
pub open spec fn lerp_fixed(current: i32, target: i32, num: u32, den: u32) -> int {
    if target >= current {
        current + ((target - current) * num) / (den as int)
    } else {
        current - ((current - target) * num) / (den as int)
    }
}

/// The smoothing step never leaves the interval between `current` and
/// `target`, and a full rate lands exactly on `target`.
pub proof fn lemma_lerp_fixed_bounds(current: i32, target: i32, num: u32, den: u32)
    requires
        0 < den,
        num <= den,
    ensures
        current <= target ==> current <= lerp_fixed(current, target, num, den) <= target,
        target <= current ==> target <= lerp_fixed(current, target, num, den) <= current,
        num == den ==> lerp_fixed(current, target, num, den) == target,
{
    if target >= current {
        let delta = target - current;
        lemma_div_pos_is_pos(delta * num, den as int);
        lemma_mul_inequality(num as int, den as int, delta);
        assert(num * delta == delta * num) by (nonlinear_arith);
        assert(den * delta == delta * den) by (nonlinear_arith);
        lemma_div_is_ordered(delta * num, delta * den, den as int);
        lemma_div_multiples_vanish(delta, den as int);
        assert(delta * den == den * delta) by (nonlinear_arith);
    } else {
        let delta = current - target;
        lemma_div_pos_is_pos(delta * num, den as int);
        lemma_mul_inequality(num as int, den as int, delta);
        assert(num * delta == delta * num) by (nonlinear_arith);
        assert(den * delta == delta * den) by (nonlinear_arith);
        lemma_div_is_ordered(delta * num, delta * den, den as int);
        lemma_div_multiples_vanish(delta, den as int);
        assert(delta * den == den * delta) by (nonlinear_arith);
    }
}

/// Executable smoothing step; the rate denominator is capped so the scaled
/// delta stays well inside `i64`.
pub fn lerp_i32(current: i32, target: i32, num: u32, den: u32) -> (r: i32)
    requires
        0 < den,
        num <= den,
        den <= 1000000,
    ensures
        r == lerp_fixed(current, target, num, den),
{
    proof {
        lemma_lerp_fixed_bounds(current, target, num, den);
    }
    if target >= current {
        let delta: i64 = target as i64 - current as i64;
        proof {
            assert(0 <= delta * (num as int) <= 0x1_0000_0000 * 1000000) by (nonlinear_arith)
                requires
                    0 <= delta <= 0x1_0000_0000,
                    0 <= num <= 1000000,
            ;
        }
        let step: i64 = delta * num as i64 / den as i64;
        (current as i64 + step) as i32
    } else {
        let delta: i64 = current as i64 - target as i64;
        proof {
            assert(0 <= delta * (num as int) <= 0x1_0000_0000 * 1000000) by (nonlinear_arith)
                requires
                    0 <= delta <= 0x1_0000_0000,
                    0 <= num <= 1000000,
            ;
        }
        let step: i64 = delta * num as i64 / den as i64;
        (current as i64 - step) as i32
    }
}

/// Componentwise smoothing of a vector toward a target.
pub open spec fn lerp_vec3(v: Vec3Fixed, t: Vec3Fixed, num: u32, den: u32) -> Vec3Fixed {
    Vec3Fixed {
        x: lerp_fixed(v.x, t.x, num, den) as i32,
        y: lerp_fixed(v.y, t.y, num, den) as i32,
        z: lerp_fixed(v.z, t.z, num, den) as i32,
    }
}

/// Componentwise smoothing of a quaternion toward a target.
pub open spec fn lerp_quat(q: QuatFixed, t: QuatFixed, num: u32, den: u32) -> QuatFixed {
    QuatFixed {
        x: lerp_fixed(q.x, t.x, num, den) as i32,
        y: lerp_fixed(q.y, t.y, num, den) as i32,
        z: lerp_fixed(q.z, t.z, num, den) as i32,
        w: lerp_fixed(q.w, t.w, num, den) as i32,
    }
}

pub fn lerp_vec3_exec(v: Vec3Fixed, t: Vec3Fixed, num: u32, den: u32) -> (r: Vec3Fixed)
    requires
        0 < den <= 1000000,
        num <= den,
    ensures
        r == lerp_vec3(v, t, num, den),
{
    proof {
        lemma_lerp_fixed_bounds(v.x, t.x, num, den);
        lemma_lerp_fixed_bounds(v.y, t.y, num, den);
        lemma_lerp_fixed_bounds(v.z, t.z, num, den);
    }
    Vec3Fixed {
        x: lerp_i32(v.x, t.x, num, den),
        y: lerp_i32(v.y, t.y, num, den),
        z: lerp_i32(v.z, t.z, num, den),
    }
}

pub fn lerp_quat_exec(q: QuatFixed, t: QuatFixed, num: u32, den: u32) -> (r: QuatFixed)
    requires
        0 < den <= 1000000,
        num <= den,
    ensures
        r == lerp_quat(q, t, num, den),
{
    proof {
        lemma_lerp_fixed_bounds(q.x, t.x, num, den);
        lemma_lerp_fixed_bounds(q.y, t.y, num, den);
        lemma_lerp_fixed_bounds(q.z, t.z, num, den);
        lemma_lerp_fixed_bounds(q.w, t.w, num, den);
    }
    QuatFixed {
        x: lerp_i32(q.x, t.x, num, den),
        y: lerp_i32(q.y, t.y, num, den),
        z: lerp_i32(q.z, t.z, num, den),
        w: lerp_i32(q.w, t.w, num, den),
    }
}

} // verus!
