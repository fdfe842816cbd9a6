//! Game-specific object layouts (Palia), held as plain values: every pointer
//! is held as the address it points to.
use vstd::prelude::*;
use crate::ue::containers::TArray;
use crate::ue::engine::{AActor, APawn, APlayerController, UActorComponent, ULocalPlayer};

verus! {

#[derive(Clone, Copy)]
pub struct UValeriaLocalPlayer {
    pub local_player_: ULocalPlayer,
}

#[allow(non_camel_case_types)]
#[derive(Clone, Copy)]
pub struct AVAL_PlayerControllerBase {
    pub player_controller_: APlayerController,
}

/// A slot of the inventory: the bag and the slot within it.
#[derive(Clone, Copy)]
pub struct FBagSlotLocation {
    bag_index: i32,
    slot_index: i32,
}

impl FBagSlotLocation {
    pub closed spec fn bag(&self) -> i32 {
        self.bag_index
    }

    pub closed spec fn slot(&self) -> i32 {
        self.slot_index
    }

    pub fn new(bag_index: i32, slot_index: i32) -> (l: Self)
        ensures
            l.bag() == bag_index,
            l.slot() == slot_index,
    {
        FBagSlotLocation { bag_index, slot_index }
    }

    pub fn bag_index(&self) -> (b: i32)
        ensures
            b == self.bag(),
    {
        self.bag_index
    }

    pub fn slot_index(&self) -> (s: i32)
        ensures
            s == self.slot(),
    {
        self.slot_index
    }

    /// The slot that the store sells from and the first slot discarded from:
    /// bag 0, slot 0.
    pub fn first_slot() -> (l: Self)
        ensures
            l.bag() == 0,
            l.slot() == 0,
    {
        FBagSlotLocation { bag_index: 0, slot_index: 0 }
    }
}

#[derive(Clone, Copy)]
pub struct UVillagerStoreComponent {
    actor_component_: UActorComponent,
}

impl UVillagerStoreComponent {
    pub closed spec fn component(&self) -> UActorComponent {
        self.actor_component_
    }

    pub fn new(actor_component_: UActorComponent) -> (c: Self)
        ensures
            c.component() == actor_component_,
    {
        UVillagerStoreComponent { actor_component_ }
    }
}

/// An inventory item: its amount and its remaining raw bytes.
#[derive(Clone, Copy)]
pub struct FValeriaItem {
    pub amount: i32,
    pub pad: [u8; 0x4a],
}

impl FValeriaItem {
    /// An item with the given amount and raw bytes.
    pub fn from_parts(amount: i32, pad: [u8; 0x4a]) -> (i: Self)
        ensures
            i.amount == amount,
            i.pad@ == pad@,
    {
        FValeriaItem { amount, pad }
    }
}

#[derive(Clone, Copy)]
pub struct UInventoryComponent {
    pub actor_component_: UActorComponent,
}

pub struct UPlayerInventoryComponent {
    pub inventory_component_: UInventoryComponent,
    pub carried_items: TArray<FValeriaItem>,
}

#[derive(Clone, Copy)]
pub struct AValeriaMoveablePawn {
    pub pawn_: APawn,
}

#[derive(Clone, Copy)]
pub struct AValeriaCharacter {
    pub valeria_moveable_pawn_: AValeriaMoveablePawn,
    pub villager_store_component: u64,
}

#[allow(non_camel_case_types)]
#[derive(Clone, Copy)]
pub struct ABP_Loot_C {
    pub actor_: AActor,
    pub loot_interactor: u64,
}

#[derive(Clone, Copy)]
pub struct ULootInteractorBaseComponent {
    pub actor_component_: UActorComponent,
}

#[derive(Clone, Copy)]
pub struct ULootInteractorComponent {
    pub loot_interactor_base_component_: ULootInteractorBaseComponent,
}

/// The outcome of a catch, as the fishing component reports it.
#[derive(Clone, Copy)]
pub struct FFishCaughtResult {
    pub was_perfect_catch: bool,
    pub was_first_time_catch: bool,
    pub item_category: u8,
    pub pad_3: [u8; 0x5],
    pub fish_type: u64,
    pub fish_quality: i32,
    pub pad_14: [u8; 0x4],
}

impl FFishCaughtResult {
    /// The result that the overlay reports for a catch: perfect, not the first
    /// of its kind, item category 7, no fish type, quality 1.
    pub fn perfect_catch() -> (r: Self)
        ensures
            r.was_perfect_catch,
            !r.was_first_time_catch,
            r.item_category == 7,
            r.pad_3@ == seq![0u8, 0u8, 0u8, 0u8, 0u8],
            r.fish_type == 0,
            r.fish_quality == 1,
            r.pad_14@ == seq![0u8, 0u8, 0u8, 0u8],
    {
        let r = FFishCaughtResult {
            was_perfect_catch: true,
            was_first_time_catch: false,
            item_category: 7,
            pad_3: [0, 0, 0, 0, 0],
            fish_type: 0,
            fish_quality: 1i32,
            pad_14: [0, 0, 0, 0],
        };
        assert(r.pad_3@ =~= seq![0u8, 0u8, 0u8, 0u8, 0u8]);
        assert(r.pad_14@ =~= seq![0u8, 0u8, 0u8, 0u8]);
        r
    }
}

} // verus!
