//! The ways demangling can fail.
use vstd::prelude::*;

verus! {

/// Information about demangling failure.
#[derive(Debug, Clone, Copy, PartialEq, Eq, PartialOrd, Ord, Hash)]
#[non_exhaustive]
pub enum DemangleError<'s> {
    NotMangled,
    NonAscii,
    TrailingDataOnDestructor(&'s str),
    InvalidClassNameOnDestructor(&'s str),
    InvalidClassNameOnConstructor(&'s str),
    InvalidClassNameOnOperator(&'s str),
    InvalidClassNameOnMethod(&'s str),
    InvalidClassNameOnVirtualTable(&'s str),
    InvalidNamespaceOnNamespacedGlobal(&'s str),
    InvalidCustomNameOnArgument(&'s str),
    InvalidCustomNameOnNamespace(&'s str),
    InvalidCustomNameOnTemplate(&'s str),
    InvalidNamespaceOnTemplatedFunction(&'s str),
    InvalidSymbolNameOnTemplateType(&'s str),
    InvalidClassNameOnMethodArgument(&'s str),
    UnknownType(char, &'s str),
    InvalidRepeatingArgument(&'s str),
    RanOutWhileDemanglingSpecial,
    RanOutOfArguments,
    FoundDuplicatedPrevQualifierOnArgument(&'s str, char),
    InvalidSpecialMethod(&'s str),
    UnrecognizedSpecialMethod(&'s str),
    PrimitiveInsteadOfClass(&'s str),
    InvalidNamespaceCount(&'s str),
    InvalidLookbackCount(&'s str),
    LookbackCountTooBig(&'s str, usize),
    InvalidTypeOnTypeInfoFunction(&'s str),
    TrailingDataOnTypeInfoFunction(&'s str),
    InvalidTypeOnTypeInfoNode(&'s str),
    TrailingDataOnTypeInfoNode(&'s str),
    TrailingDataAfterEllipsis(&'s str),
    InvalidTypeValueForTemplated(char, &'s str),
    InvalidValueForIntegralTemplated(&'s str),
    InvalidTemplatedPointerReferenceValue(&'s str),
    InvalidTemplatedNumberForCharacterValue(&'s str),
    InvalidTemplatedCharacterValue(&'s str, usize),
    InvalidTemplatedBoolean(&'s str),
    VTableMissingDollarSeparator(&'s str),
    InvalidNamespacedGlobal(&'s str, &'s str),
    TrailingDataOnNamespacedGlobal(&'s str),
    MissingReturnTypeForFunctionPointer(&'s str),
    InvalidReturnTypeForFunctionPointer(&'s str),
    InvalidGlobalSymKeyed(&'s str),
    InvalidArraySize(&'s str),
    MalformedArrayArgumment(&'s str),
    PrevQualifiersInInvalidPostioniAtArrayArgument(&'s str),
    MalformedCastOperatorOverload(&'s str),
    InvalidTemplateCount(&'s str),
    InvalidTemplateReturnCount(&'s str),
    TemplateReturnCountIsZero(&'s str),
    MalformedTemplateWithReturnType(&'s str),
    InvalidValueForIndexOnXArgument(&'s str),
    InvalidValueForNumber1OnXArgument(&'s str),
    InvalidNumber1OnXArgument(&'s str, usize),
    IndexTooBigForXArgument(&'s str, usize),
    TrailingDataAfterArgumentList(&'s str),
    MalformedTemplateWithReturnTypeMissingReturnType(&'s str),
    MalformedTemplateWithReturnTypeMissingMalformedReturnType(&'s str),
    TrailingDataAfterReturnTypeOfMalformedTemplateWithReturnType(&'s str),
    InvalidQualifierForMethodMemberArg(&'s str),
    MissingFirstClassArgumentForMethodMemberArg(&'s str),
    MethodPointerNotHavingAPointerFirst(&'s str),
    MethodPointerMissingConstness(&'s str),
    MethodPointerWrongClassName(&'s str),
    MethodPointerClassNameAsArray(&'s str),
    UnknownMethodMemberArgKind(&'s str),
    MissingBitwidthForExtensionInteger(&'s str),
    InvalidBitwidthForExtensionInteger(&'s str, usize),
    InvalidEnumNameForTemplatedValue(&'s str),
    MissingLookbackIndexForTemplatedValue(&'s str),
    MissingLookbackSecondDigitForTemplatedValue(&'s str),
    InvalidLookbackSecondDigitForTemplatedValue(&'s str, usize),
    IndexTooBigForYArgument(&'s str, usize),
    InvalidQualifierForObjectMemberArg(&'s str),
    InvalidClassNameOnObjectMemberArgument(&'s str),
    MissingTypeForObjectMemberPointer(&'s str),
    InvalidTypeForObjectMemberPointer(&'s str),
}

/// The result is not the failure kept for symbols that are not ASCII.
pub open spec fn not_non_ascii<T>(r: Result<T, DemangleError>) -> bool {
    !(r matches Err(DemangleError::NonAscii))
}

impl<'s> DemangleError<'s> {
    /// The text this failure is shown as; it is the same for every kind of
    /// failure.
    pub fn display_text(&self) -> (s: String)
        ensures
            s@ == "Sorry, I haven't implemented Display for DemangleError yet :c"@,
    {
        "Sorry, I haven't implemented Display for DemangleError yet :c".to_owned()
    }
}

/// A demangling failure, with the parts of the symbol it names as text.
pub ghost enum DemErr {
    NotMangled,
    NonAscii,
    TrailingDataOnDestructor(Seq<char>),
    InvalidClassNameOnDestructor(Seq<char>),
    InvalidClassNameOnConstructor(Seq<char>),
    InvalidClassNameOnOperator(Seq<char>),
    InvalidClassNameOnMethod(Seq<char>),
    InvalidClassNameOnVirtualTable(Seq<char>),
    InvalidNamespaceOnNamespacedGlobal(Seq<char>),
    InvalidCustomNameOnArgument(Seq<char>),
    InvalidCustomNameOnNamespace(Seq<char>),
    InvalidCustomNameOnTemplate(Seq<char>),
    InvalidNamespaceOnTemplatedFunction(Seq<char>),
    InvalidSymbolNameOnTemplateType(Seq<char>),
    InvalidClassNameOnMethodArgument(Seq<char>),
    UnknownType(char, Seq<char>),
    InvalidRepeatingArgument(Seq<char>),
    RanOutWhileDemanglingSpecial,
    RanOutOfArguments,
    FoundDuplicatedPrevQualifierOnArgument(Seq<char>, char),
    InvalidSpecialMethod(Seq<char>),
    UnrecognizedSpecialMethod(Seq<char>),
    PrimitiveInsteadOfClass(Seq<char>),
    InvalidNamespaceCount(Seq<char>),
    InvalidLookbackCount(Seq<char>),
    LookbackCountTooBig(Seq<char>, usize),
    InvalidTypeOnTypeInfoFunction(Seq<char>),
    TrailingDataOnTypeInfoFunction(Seq<char>),
    InvalidTypeOnTypeInfoNode(Seq<char>),
    TrailingDataOnTypeInfoNode(Seq<char>),
    TrailingDataAfterEllipsis(Seq<char>),
    InvalidTypeValueForTemplated(char, Seq<char>),
    InvalidValueForIntegralTemplated(Seq<char>),
    InvalidTemplatedPointerReferenceValue(Seq<char>),
    InvalidTemplatedNumberForCharacterValue(Seq<char>),
    InvalidTemplatedCharacterValue(Seq<char>, usize),
    InvalidTemplatedBoolean(Seq<char>),
    VTableMissingDollarSeparator(Seq<char>),
    InvalidNamespacedGlobal(Seq<char>, Seq<char>),
    TrailingDataOnNamespacedGlobal(Seq<char>),
    MissingReturnTypeForFunctionPointer(Seq<char>),
    InvalidReturnTypeForFunctionPointer(Seq<char>),
    InvalidGlobalSymKeyed(Seq<char>),
    InvalidArraySize(Seq<char>),
    MalformedArrayArgumment(Seq<char>),
    PrevQualifiersInInvalidPostioniAtArrayArgument(Seq<char>),
    MalformedCastOperatorOverload(Seq<char>),
    InvalidTemplateCount(Seq<char>),
    InvalidTemplateReturnCount(Seq<char>),
    TemplateReturnCountIsZero(Seq<char>),
    MalformedTemplateWithReturnType(Seq<char>),
    InvalidValueForIndexOnXArgument(Seq<char>),
    InvalidValueForNumber1OnXArgument(Seq<char>),
    InvalidNumber1OnXArgument(Seq<char>, usize),
    IndexTooBigForXArgument(Seq<char>, usize),
    TrailingDataAfterArgumentList(Seq<char>),
    MalformedTemplateWithReturnTypeMissingReturnType(Seq<char>),
    MalformedTemplateWithReturnTypeMissingMalformedReturnType(Seq<char>),
    TrailingDataAfterReturnTypeOfMalformedTemplateWithReturnType(Seq<char>),
    InvalidQualifierForMethodMemberArg(Seq<char>),
    MissingFirstClassArgumentForMethodMemberArg(Seq<char>),
    MethodPointerNotHavingAPointerFirst(Seq<char>),
    MethodPointerMissingConstness(Seq<char>),
    MethodPointerWrongClassName(Seq<char>),
    MethodPointerClassNameAsArray(Seq<char>),
    UnknownMethodMemberArgKind(Seq<char>),
    MissingBitwidthForExtensionInteger(Seq<char>),
    InvalidBitwidthForExtensionInteger(Seq<char>, usize),
    InvalidEnumNameForTemplatedValue(Seq<char>),
    MissingLookbackIndexForTemplatedValue(Seq<char>),
    MissingLookbackSecondDigitForTemplatedValue(Seq<char>),
    InvalidLookbackSecondDigitForTemplatedValue(Seq<char>, usize),
    IndexTooBigForYArgument(Seq<char>, usize),
    InvalidQualifierForObjectMemberArg(Seq<char>),
    InvalidClassNameOnObjectMemberArgument(Seq<char>),
    MissingTypeForObjectMemberPointer(Seq<char>),
    InvalidTypeForObjectMemberPointer(Seq<char>),
}

impl<'s> View for DemangleError<'s> {
    type V = DemErr;

    open spec fn view(&self) -> DemErr {
        match *self {
            DemangleError::NotMangled => DemErr::NotMangled,
            DemangleError::NonAscii => DemErr::NonAscii,
            DemangleError::TrailingDataOnDestructor(a0) => DemErr::TrailingDataOnDestructor(a0@),
            DemangleError::InvalidClassNameOnDestructor(a0) => DemErr::InvalidClassNameOnDestructor(a0@),
            DemangleError::InvalidClassNameOnConstructor(a0) => DemErr::InvalidClassNameOnConstructor(a0@),
            DemangleError::InvalidClassNameOnOperator(a0) => DemErr::InvalidClassNameOnOperator(a0@),
            DemangleError::InvalidClassNameOnMethod(a0) => DemErr::InvalidClassNameOnMethod(a0@),
            DemangleError::InvalidClassNameOnVirtualTable(a0) => DemErr::InvalidClassNameOnVirtualTable(a0@),
            DemangleError::InvalidNamespaceOnNamespacedGlobal(a0) => DemErr::InvalidNamespaceOnNamespacedGlobal(a0@),
            DemangleError::InvalidCustomNameOnArgument(a0) => DemErr::InvalidCustomNameOnArgument(a0@),
            DemangleError::InvalidCustomNameOnNamespace(a0) => DemErr::InvalidCustomNameOnNamespace(a0@),
            DemangleError::InvalidCustomNameOnTemplate(a0) => DemErr::InvalidCustomNameOnTemplate(a0@),
            DemangleError::InvalidNamespaceOnTemplatedFunction(a0) => DemErr::InvalidNamespaceOnTemplatedFunction(a0@),
            DemangleError::InvalidSymbolNameOnTemplateType(a0) => DemErr::InvalidSymbolNameOnTemplateType(a0@),
            DemangleError::InvalidClassNameOnMethodArgument(a0) => DemErr::InvalidClassNameOnMethodArgument(a0@),
            DemangleError::UnknownType(a0, a1) => DemErr::UnknownType(a0, a1@),
            DemangleError::InvalidRepeatingArgument(a0) => DemErr::InvalidRepeatingArgument(a0@),
            DemangleError::RanOutWhileDemanglingSpecial => DemErr::RanOutWhileDemanglingSpecial,
            DemangleError::RanOutOfArguments => DemErr::RanOutOfArguments,
            DemangleError::FoundDuplicatedPrevQualifierOnArgument(a0, a1) => DemErr::FoundDuplicatedPrevQualifierOnArgument(a0@, a1),
            DemangleError::InvalidSpecialMethod(a0) => DemErr::InvalidSpecialMethod(a0@),
            DemangleError::UnrecognizedSpecialMethod(a0) => DemErr::UnrecognizedSpecialMethod(a0@),
            DemangleError::PrimitiveInsteadOfClass(a0) => DemErr::PrimitiveInsteadOfClass(a0@),
            DemangleError::InvalidNamespaceCount(a0) => DemErr::InvalidNamespaceCount(a0@),
            DemangleError::InvalidLookbackCount(a0) => DemErr::InvalidLookbackCount(a0@),
            DemangleError::LookbackCountTooBig(a0, a1) => DemErr::LookbackCountTooBig(a0@, a1),
            DemangleError::InvalidTypeOnTypeInfoFunction(a0) => DemErr::InvalidTypeOnTypeInfoFunction(a0@),
            DemangleError::TrailingDataOnTypeInfoFunction(a0) => DemErr::TrailingDataOnTypeInfoFunction(a0@),
            DemangleError::InvalidTypeOnTypeInfoNode(a0) => DemErr::InvalidTypeOnTypeInfoNode(a0@),
            DemangleError::TrailingDataOnTypeInfoNode(a0) => DemErr::TrailingDataOnTypeInfoNode(a0@),
            DemangleError::TrailingDataAfterEllipsis(a0) => DemErr::TrailingDataAfterEllipsis(a0@),
            DemangleError::InvalidTypeValueForTemplated(a0, a1) => DemErr::InvalidTypeValueForTemplated(a0, a1@),
            DemangleError::InvalidValueForIntegralTemplated(a0) => DemErr::InvalidValueForIntegralTemplated(a0@),
            DemangleError::InvalidTemplatedPointerReferenceValue(a0) => DemErr::InvalidTemplatedPointerReferenceValue(a0@),
            DemangleError::InvalidTemplatedNumberForCharacterValue(a0) => DemErr::InvalidTemplatedNumberForCharacterValue(a0@),
            DemangleError::InvalidTemplatedCharacterValue(a0, a1) => DemErr::InvalidTemplatedCharacterValue(a0@, a1),
            DemangleError::InvalidTemplatedBoolean(a0) => DemErr::InvalidTemplatedBoolean(a0@),
            DemangleError::VTableMissingDollarSeparator(a0) => DemErr::VTableMissingDollarSeparator(a0@),
            DemangleError::InvalidNamespacedGlobal(a0, a1) => DemErr::InvalidNamespacedGlobal(a0@, a1@),
            DemangleError::TrailingDataOnNamespacedGlobal(a0) => DemErr::TrailingDataOnNamespacedGlobal(a0@),
            DemangleError::MissingReturnTypeForFunctionPointer(a0) => DemErr::MissingReturnTypeForFunctionPointer(a0@),
            DemangleError::InvalidReturnTypeForFunctionPointer(a0) => DemErr::InvalidReturnTypeForFunctionPointer(a0@),
            DemangleError::InvalidGlobalSymKeyed(a0) => DemErr::InvalidGlobalSymKeyed(a0@),
            DemangleError::InvalidArraySize(a0) => DemErr::InvalidArraySize(a0@),
            DemangleError::MalformedArrayArgumment(a0) => DemErr::MalformedArrayArgumment(a0@),
            DemangleError::PrevQualifiersInInvalidPostioniAtArrayArgument(a0) => DemErr::PrevQualifiersInInvalidPostioniAtArrayArgument(a0@),
            DemangleError::MalformedCastOperatorOverload(a0) => DemErr::MalformedCastOperatorOverload(a0@),
            DemangleError::InvalidTemplateCount(a0) => DemErr::InvalidTemplateCount(a0@),
            DemangleError::InvalidTemplateReturnCount(a0) => DemErr::InvalidTemplateReturnCount(a0@),
            DemangleError::TemplateReturnCountIsZero(a0) => DemErr::TemplateReturnCountIsZero(a0@),
            DemangleError::MalformedTemplateWithReturnType(a0) => DemErr::MalformedTemplateWithReturnType(a0@),
            DemangleError::InvalidValueForIndexOnXArgument(a0) => DemErr::InvalidValueForIndexOnXArgument(a0@),
            DemangleError::InvalidValueForNumber1OnXArgument(a0) => DemErr::InvalidValueForNumber1OnXArgument(a0@),
            DemangleError::InvalidNumber1OnXArgument(a0, a1) => DemErr::InvalidNumber1OnXArgument(a0@, a1),
            DemangleError::IndexTooBigForXArgument(a0, a1) => DemErr::IndexTooBigForXArgument(a0@, a1),
            DemangleError::TrailingDataAfterArgumentList(a0) => DemErr::TrailingDataAfterArgumentList(a0@),
            DemangleError::MalformedTemplateWithReturnTypeMissingReturnType(a0) => DemErr::MalformedTemplateWithReturnTypeMissingReturnType(a0@),
            DemangleError::MalformedTemplateWithReturnTypeMissingMalformedReturnType(a0) => DemErr::MalformedTemplateWithReturnTypeMissingMalformedReturnType(a0@),
            DemangleError::TrailingDataAfterReturnTypeOfMalformedTemplateWithReturnType(a0) => DemErr::TrailingDataAfterReturnTypeOfMalformedTemplateWithReturnType(a0@),
            DemangleError::InvalidQualifierForMethodMemberArg(a0) => DemErr::InvalidQualifierForMethodMemberArg(a0@),
            DemangleError::MissingFirstClassArgumentForMethodMemberArg(a0) => DemErr::MissingFirstClassArgumentForMethodMemberArg(a0@),
            DemangleError::MethodPointerNotHavingAPointerFirst(a0) => DemErr::MethodPointerNotHavingAPointerFirst(a0@),
            DemangleError::MethodPointerMissingConstness(a0) => DemErr::MethodPointerMissingConstness(a0@),
            DemangleError::MethodPointerWrongClassName(a0) => DemErr::MethodPointerWrongClassName(a0@),
            DemangleError::MethodPointerClassNameAsArray(a0) => DemErr::MethodPointerClassNameAsArray(a0@),
            DemangleError::UnknownMethodMemberArgKind(a0) => DemErr::UnknownMethodMemberArgKind(a0@),
            DemangleError::MissingBitwidthForExtensionInteger(a0) => DemErr::MissingBitwidthForExtensionInteger(a0@),
            DemangleError::InvalidBitwidthForExtensionInteger(a0, a1) => DemErr::InvalidBitwidthForExtensionInteger(a0@, a1),
            DemangleError::InvalidEnumNameForTemplatedValue(a0) => DemErr::InvalidEnumNameForTemplatedValue(a0@),
            DemangleError::MissingLookbackIndexForTemplatedValue(a0) => DemErr::MissingLookbackIndexForTemplatedValue(a0@),
            DemangleError::MissingLookbackSecondDigitForTemplatedValue(a0) => DemErr::MissingLookbackSecondDigitForTemplatedValue(a0@),
            DemangleError::InvalidLookbackSecondDigitForTemplatedValue(a0, a1) => DemErr::InvalidLookbackSecondDigitForTemplatedValue(a0@, a1),
            DemangleError::IndexTooBigForYArgument(a0, a1) => DemErr::IndexTooBigForYArgument(a0@, a1),
            DemangleError::InvalidQualifierForObjectMemberArg(a0) => DemErr::InvalidQualifierForObjectMemberArg(a0@),
            DemangleError::InvalidClassNameOnObjectMemberArgument(a0) => DemErr::InvalidClassNameOnObjectMemberArgument(a0@),
            DemangleError::MissingTypeForObjectMemberPointer(a0) => DemErr::MissingTypeForObjectMemberPointer(a0@),
            DemangleError::InvalidTypeForObjectMemberPointer(a0) => DemErr::InvalidTypeForObjectMemberPointer(a0@),
        }
    }
}

} // verus!
