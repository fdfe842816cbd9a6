pub mod names;
pub mod containers;
pub mod objects;
pub mod engine;

pub use names::{FNameEntryHandle, FNameEntry, FNamePool, FName};
pub use containers::{TArray, TArrayIterator, FString};
pub use objects::{UObject, UField, UStruct, UClass, TUObjectArray};
pub use engine::{
    Color, FRotator, UFont, UCanvas, UBlueprintFunctionLibrary, UGameplayStatics,
    SpawnObjectParams, UScriptViewportClient, AActor, AController, APawn, APlayerController,
    UHUD, UPlayer, ULocalPlayer, AInfo, ULevelActorContainer, UActorComponent,
    UMovementComponent, UNavMovementComponent, UPawnMovementComponent,
};
