//! Engine object layouts that the overlay walks, held as plain values:
//! every pointer is held as the address it points to.
use vstd::prelude::*;
use crate::ue::containers::TArray;
use crate::ue::objects::UObject;

verus! {

/// The colours that the overlay draws with.
#[derive(Clone, Copy, Debug, PartialEq, Eq, Structural)]
pub enum Color {
    Red,
    Green,
    Blue,
    Purple,
    Yellow,
    White,
}

/// A rotation, kept as its raw 24 bytes.
#[derive(Clone, Copy)]
pub struct FRotator {
    pad: [u8; 0x18],
}

impl FRotator {
    /// A rotation with the given raw bytes.
    pub fn from_bytes(pad: [u8; 0x18]) -> (r: Self)
        ensures
            r.bytes() == pad@,
    {
        FRotator { pad }
    }

    /// The rotation's raw bytes.
    pub closed spec fn bytes(&self) -> Seq<u8> {
        self.pad@
    }
}

#[derive(Clone, Copy)]
pub struct UFont {
    pub object_: UObject,
}

#[derive(Clone, Copy)]
pub struct UCanvas {
    pub object_: UObject,
}

#[derive(Clone, Copy)]
pub struct UBlueprintFunctionLibrary {
    pub object_: UObject,
}

#[derive(Clone, Copy)]
pub struct UGameplayStatics {
    pub blueprint_function_library_: UBlueprintFunctionLibrary,
}

/// The parameters of `GameplayStatics.SpawnObject`: the class and outer of the
/// object to spawn, and the slot that receives its address.
#[derive(Clone, Copy)]
pub struct SpawnObjectParams {
    class: u64,
    outer: u64,
    return_val: u64,
}

impl SpawnObjectParams {
    pub closed spec fn class_address(&self) -> u64 {
        self.class
    }

    pub closed spec fn outer_address(&self) -> u64 {
        self.outer
    }

    pub closed spec fn result_address(&self) -> u64 {
        self.return_val
    }

    /// The parameters for spawning an object of `class` inside `outer`, with an
    /// empty result slot.
    pub fn new(class: u64, outer: u64) -> (p: Self)
        ensures
            p.class_address() == class,
            p.outer_address() == outer,
            p.result_address() == 0,
    {
        SpawnObjectParams { class, outer, return_val: 0 }
    }

    /// The address that the call left in the result slot.
    pub fn return_val(&self) -> (r: u64)
        ensures
            r == self.result_address(),
    {
        self.return_val
    }
}

#[derive(Clone, Copy)]
pub struct UScriptViewportClient {
    pub object_: UObject,
}

#[derive(Clone, Copy)]
pub struct AActor {
    pub object_: UObject,
}

#[derive(Clone, Copy)]
pub struct AController {
    pub a_actor_: AActor,
}

#[derive(Clone, Copy)]
pub struct APawn {
    pub a_actor_: AActor,
}

#[derive(Clone, Copy)]
pub struct APlayerController {
    pub a_controller_: AController,
    pub player: u64,
    pub my_hud: u64,
    pub player_camera_manager: u64,
}

#[derive(Clone, Copy)]
pub struct UHUD {
    pub actor_: AActor,
    pub player_owner: u64,
    pub canvas: u64,
}

#[derive(Clone, Copy)]
pub struct UPlayer {
    pub object_: UObject,
    pub player_controller: u64,
}

#[derive(Clone, Copy)]
pub struct ULocalPlayer {
    pub player_: UPlayer,
    pub viewport_client: u64,
}

#[derive(Clone, Copy)]
pub struct AInfo {
    pub a_actor_: AActor,
}

/// A container of actors: its object header and the addresses of its actors.
pub struct ULevelActorContainer {
    pub object_: UObject,
    pub actors: TArray<u64>,
}

#[derive(Clone, Copy)]
pub struct UActorComponent {
    pub object_: UObject,
}

#[derive(Clone, Copy)]
pub struct UMovementComponent {
    pub actor_component_: UActorComponent,
}

#[derive(Clone, Copy)]
pub struct UNavMovementComponent {
    pub movement_component_: UMovementComponent,
}

#[derive(Clone, Copy)]
pub struct UPawnMovementComponent {
    pub nav_movement_component: UNavMovementComponent,
}

} // verus!
