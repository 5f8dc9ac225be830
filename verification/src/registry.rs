//! The processors that a batch can run, looked up by id, with their
//! descriptors listed by display name.

use vstd::prelude::*;
use vstd::multiset::Multiset;
use crate::compress::{CompressParams, CompressProcessor, compress_params_problem};
use crate::format_convert::{FormatConvertParams, FormatConvertProcessor, target_format_of};
use crate::ordering::{KeyedByText, sort_by_text_key, sorted_by_key};
use crate::processor::{ProcessError, ProcessorDescriptor};
use crate::rename::RenameProcessor;
use crate::manual_crop::{ManualCropParams, ManualCropProcessor};
use crate::upscale_anime::{UpscaleAnimeParams, UpscaleAnimeProcessor, upscale_params_problem};
use crate::repair::{RepairParams, RepairProcessor, repair_params_problem};
use crate::resolution_transform::{ResolutionTransformParams, ResolutionTransformProcessor, transform_params_problem};
use crate::text::chars_of;
use crate::crop_runner::same_chars;
use crate::trim_transparent::{TrimTransparentParams, TrimTransparentProcessor, MAX_TRIM_PADDING};

verus! {

/// The processors of the batch runner.
#[derive(Clone, Copy, PartialEq, Eq, Structural, Debug)]
pub enum ProcessorKind {
    TrimTransparent,
    FormatConvert,
    Compress,
    Repair,
    ResolutionTransform,
    Rename,
    ManualCrop,
    UpscaleAnime,
}

/// Parsed parameters of one processor.
#[derive(Debug)]
pub enum ProcessorParams {
    TrimTransparent(TrimTransparentParams),
    FormatConvert(FormatConvertParams),
    Compress(CompressParams),
    Repair(RepairParams),
    ResolutionTransform(ResolutionTransformParams),
    Rename,
    ManualCrop(ManualCropParams),
    UpscaleAnime(UpscaleAnimeParams),
}

pub open spec fn kind_id(k: ProcessorKind) -> Seq<char> {
    match k {
        ProcessorKind::TrimTransparent => "trim-transparent"@,
        ProcessorKind::FormatConvert => "format-convert"@,
        ProcessorKind::Compress => "compress"@,
        ProcessorKind::Repair => "repair"@,
        ProcessorKind::ResolutionTransform => "resolution-transform"@,
        ProcessorKind::Rename => "rename"@,
        ProcessorKind::ManualCrop => "manual-crop"@,
        ProcessorKind::UpscaleAnime => "upscale-anime"@,
    }
}

pub open spec fn kind_display_name(k: ProcessorKind) -> Seq<char> {
    match k {
        ProcessorKind::TrimTransparent => "裁剪透明边缘"@,
        ProcessorKind::FormatConvert => "图像格式转换"@,
        ProcessorKind::Compress => "图像压缩"@,
        ProcessorKind::Repair => "图像修复"@,
        ProcessorKind::ResolutionTransform => "变换分辨率"@,
        ProcessorKind::Rename => "批量重命名"@,
        ProcessorKind::ManualCrop => "手动裁剪"@,
        ProcessorKind::UpscaleAnime => "二次元超分"@,
    }
}

pub open spec fn kind_notes(k: ProcessorKind) -> Seq<char> {
    match k {
        ProcessorKind::TrimTransparent => "裁剪 PNG 的透明像素边缘到非透明内容区域。"@,
        ProcessorKind::FormatConvert => "支持 PNG/JPG/WEBP 格式互转。"@,
        ProcessorKind::Compress => "扩展预留：后续将支持有损/无损压缩策略。"@,
        ProcessorKind::Repair => "支持自动修复、去噪、轻度划痕修复与低分辨率增强（独立锐化强度）。"@,
        ProcessorKind::ResolutionTransform => "支持按目标分辨率缩放/超分，PNG 可自动透明居中填充；支持批量默认值和单文件覆盖。"@,
        ProcessorKind::Rename => "仅修改输出文件名，不改变图片内容。"@,
        ProcessorKind::ManualCrop => "自定义裁剪区域，支持比例锁定与逐张配置。"@,
        ProcessorKind::UpscaleAnime => "使用 realcugan-ncnn-vulkan 进行二次元风格超分。"@,
    }
}

/// Message for parameters of another processor than the one named.
pub open spec fn mismatch_message() -> Seq<char> {
    "处理器参数类型不匹配。"@
}

/// The validation message of parameters for a processor, if any.
pub open spec fn params_problem(k: ProcessorKind, p: ProcessorParams) -> Option<Seq<char>> {
    match (k, p) {
        (ProcessorKind::TrimTransparent, ProcessorParams::TrimTransparent(t)) =>
            if t.padding > MAX_TRIM_PADDING { Some("padding 过大，请使用不超过 10000 的值。"@) } else { None },
        (ProcessorKind::FormatConvert, ProcessorParams::FormatConvert(f)) =>
            if target_format_of(f.target_format@) is None {
                Some("targetFormat 不受支持，请使用 png/jpg/webp/bmp/tiff"@)
            } else {
                None
            },
        (ProcessorKind::Compress, ProcessorParams::Compress(c)) => compress_params_problem(c),
        (ProcessorKind::Repair, ProcessorParams::Repair(r)) =>
            repair_params_problem(r.mode@, r.strength, r.upscale_factor, r.upscale_sharpness),
        (ProcessorKind::ResolutionTransform, ProcessorParams::ResolutionTransform(t)) => transform_params_problem(t),
        (ProcessorKind::Rename, ProcessorParams::Rename) => None,
        (ProcessorKind::ManualCrop, ProcessorParams::ManualCrop(m)) => match m.default_percent_problem {
            Some(t) => Some(t@),
            None => None,
        },
        (ProcessorKind::UpscaleAnime, ProcessorParams::UpscaleAnime(u)) => upscale_params_problem(u.scale, u.denoise_level),
        _ => Some(mismatch_message()),
    }
}

impl KeyedByText for ProcessorKind {
    open spec fn text_key(&self) -> Seq<char> {
        kind_display_name(*self)
    }

    fn key_text(&self) -> (r: &str) {
        match self {
            ProcessorKind::TrimTransparent => "裁剪透明边缘",
            ProcessorKind::FormatConvert => "图像格式转换",
            ProcessorKind::Compress => "图像压缩",
            ProcessorKind::Repair => "图像修复",
            ProcessorKind::ResolutionTransform => "变换分辨率",
            ProcessorKind::Rename => "批量重命名",
            ProcessorKind::ManualCrop => "手动裁剪",
            ProcessorKind::UpscaleAnime => "二次元超分",
        }
    }
}

impl ProcessorKind {
    /// The id under which the processor is registered.
    pub fn id(&self) -> (r: &str)
        ensures
            r@ == kind_id(*self),
    {
        match self {
            ProcessorKind::TrimTransparent => "trim-transparent",
            ProcessorKind::FormatConvert => "format-convert",
            ProcessorKind::Compress => "compress",
            ProcessorKind::Repair => "repair",
            ProcessorKind::ResolutionTransform => "resolution-transform",
            ProcessorKind::Rename => "rename",
            ProcessorKind::ManualCrop => "manual-crop",
            ProcessorKind::UpscaleAnime => "upscale-anime",
        }
    }

    /// The processor's descriptor; its id is the kind's id and its display
    /// name the kind's display name.
    pub fn descriptor(&self) -> (d: ProcessorDescriptor)
        ensures
            d.id@ == kind_id(*self),
            d.display_name@ == kind_display_name(*self),
            d.enabled <==> *self != ProcessorKind::Compress,
            d.notes@ == kind_notes(*self),
    {
        match self {
            ProcessorKind::TrimTransparent => TrimTransparentProcessor.descriptor(),
            ProcessorKind::FormatConvert => FormatConvertProcessor.descriptor(),
            ProcessorKind::Compress => CompressProcessor.descriptor(),
            ProcessorKind::Repair => RepairProcessor.descriptor(),
            ProcessorKind::ResolutionTransform => ResolutionTransformProcessor.descriptor(),
            ProcessorKind::Rename => RenameProcessor.descriptor(),
            ProcessorKind::ManualCrop => ManualCropProcessor.descriptor(),
            ProcessorKind::UpscaleAnime => UpscaleAnimeProcessor.descriptor(),
        }
    }

    /// The processor's own check of its parameters; parameters meant for
    /// another processor are refused.
    pub fn validate(&self, params: &ProcessorParams) -> (r: Result<(), ProcessError>)
        ensures
            r is Ok <==> params_problem(*self, *params) is None,
            r matches Err(e) ==> e matches ProcessError::Validation(m) && Some(m@) == params_problem(*self, *params),
    {
        match (self, params) {
            (ProcessorKind::TrimTransparent, ProcessorParams::TrimTransparent(t)) => TrimTransparentProcessor.validate(t),
            (ProcessorKind::FormatConvert, ProcessorParams::FormatConvert(f)) => FormatConvertProcessor.validate(f),
            (ProcessorKind::Compress, ProcessorParams::Compress(c)) => CompressProcessor.validate(c),
            (ProcessorKind::Repair, ProcessorParams::Repair(r)) => RepairProcessor.validate(r),
            (ProcessorKind::ResolutionTransform, ProcessorParams::ResolutionTransform(t)) => ResolutionTransformProcessor.validate(t),
            (ProcessorKind::Rename, ProcessorParams::Rename) => RenameProcessor.validate(),
            (ProcessorKind::ManualCrop, ProcessorParams::ManualCrop(m)) => ManualCropProcessor.validate(m),
            (ProcessorKind::UpscaleAnime, ProcessorParams::UpscaleAnime(u)) => UpscaleAnimeProcessor.validate_params(u),
            _ => Err(ProcessError::Validation(String::from_str("处理器参数类型不匹配。"))),
        }
    }
}

/// The registered processors. No kind is registered twice, so each id
/// names at most one processor.
#[derive(Debug)]
pub struct ProcessorRegistry {
    processors: Vec<ProcessorKind>,
}

/// A descriptor describes a kind.
pub open spec fn describes(d: ProcessorDescriptor, k: ProcessorKind) -> bool {
    &&& d.id@ == kind_id(k)
    &&& d.display_name@ == kind_display_name(k)
    &&& (d.enabled <==> k != ProcessorKind::Compress)
    &&& d.notes@ == kind_notes(k)
}

/// Lemma: distinct kinds have distinct ids.
pub proof fn lemma_kind_id_injective(a: ProcessorKind, b: ProcessorKind)
    ensures
        kind_id(a) == kind_id(b) ==> a == b,
{
    reveal_strlit("trim-transparent");
    reveal_strlit("format-convert");
    reveal_strlit("compress");
    reveal_strlit("repair");
    reveal_strlit("resolution-transform");
    reveal_strlit("rename");
    reveal_strlit("manual-crop");
    reveal_strlit("upscale-anime");
    if kind_id(a) == kind_id(b) && a != b {
        assert(kind_id(a).len() != kind_id(b).len() || kind_id(a)[2] != kind_id(b)[2]);
    }
}

impl ProcessorRegistry {
    /// The set of registered kinds.
    pub closed spec fn kinds(&self) -> Set<ProcessorKind> {
        self.processors@.to_set()
    }

    pub closed spec fn wf(&self) -> bool {
        self.processors@.no_duplicates()
    }

    /// The kind registered under `id`.
    pub open spec fn lookup(&self, id: Seq<char>) -> Option<ProcessorKind> {
        if exists|k: ProcessorKind| self.kinds().contains(k) && kind_id(k) == id {
            Some(choose|k: ProcessorKind| self.kinds().contains(k) && kind_id(k) == id)
        } else {
            None
        }
    }

    /// An empty registry.
    pub fn new() -> (r: ProcessorRegistry)
        ensures
            r.wf(),
            r.kinds() == Set::<ProcessorKind>::empty(),
    {
        let r = ProcessorRegistry { processors: Vec::new() };
        proof {
            assert(r.processors@.to_set() =~= Set::<ProcessorKind>::empty());
        }
        r
    }

    /// Registers a processor under its id; registering one again changes
    /// nothing.
    pub fn register(&mut self, kind: ProcessorKind)
        requires
            old(self).wf(),
        ensures
            final(self).wf(),
            final(self).kinds() == old(self).kinds().insert(kind),
    {
        let mut i: usize = 0;
        while i < self.processors.len()
            invariant
                self.processors@ == old(self).processors@,
                self.wf(),
                i <= self.processors@.len(),
                forall|j: int| 0 <= j < i ==> self.processors@[j] != kind,
            decreases self.processors.len() - i,
        {
            if self.processors[i] == kind {
                proof {
                    assert(self.processors@.to_set().contains(kind)) by {
                        assert(self.processors@.contains(kind));
                    }
                    assert(self.processors@.to_set().insert(kind) =~= self.processors@.to_set());
                }
                return;
            }
            i = i + 1;
        }
        let ghost before = self.processors@;
        self.processors.push(kind);
        proof {
            assert(!before.contains(kind));
            assert(self.processors@ == before.push(kind));
            assert(self.processors@.to_set() =~= before.to_set().insert(kind)) by {
                assert forall|k: ProcessorKind| self.processors@.to_set().contains(k) <==> before.to_set().insert(kind).contains(k) by {
                    if self.processors@.contains(k) {
                        let j = choose|j: int| 0 <= j < self.processors@.len() && self.processors@[j] == k;
                        if j < before.len() {
                            assert(before[j] == k);
                        }
                    }
                    if before.contains(k) {
                        let j = choose|j: int| 0 <= j < before.len() && before[j] == k;
                        assert(self.processors@[j] == k);
                    }
                    if k == kind {
                        assert(self.processors@[before.len() as int] == k);
                    }
                }
            }
            assert forall|a: int, b: int| 0 <= a < b < self.processors@.len() implies self.processors@[a] != self.processors@[b] by {
                if b == before.len() {
                    assert(before[a] == self.processors@[a]);
                    assert(before.contains(self.processors@[a]));
                }
            }
        }
    }

    /// The processor registered under `id`.
    pub fn get(&self, id: &str) -> (r: Option<ProcessorKind>)
        requires
            self.wf(),
        ensures
            r == self.lookup(id@),
            r matches Some(k) ==> kind_id(k) == id@ && self.kinds().contains(k),
            r is None ==> forall|k: ProcessorKind| self.kinds().contains(k) ==> kind_id(k) != id@,
    {
        let key = chars_of(id);
        let mut i: usize = 0;
        while i < self.processors.len()
            invariant
                key@ == id@,
                i <= self.processors@.len(),
                forall|j: int| 0 <= j < i ==> kind_id(#[trigger] self.processors@[j]) != id@,
            decreases self.processors.len() - i,
        {
            let k = self.processors[i];
            if same_chars(&chars_of(k.id()), &key) {
                proof {
                    assert(self.processors@.contains(k));
                    assert(self.kinds().contains(k));
                    let c = choose|c: ProcessorKind| self.kinds().contains(c) && kind_id(c) == id@;
                    lemma_kind_id_injective(c, k);
                }
                return Some(k);
            }
            i = i + 1;
        }
        proof {
            if exists|c: ProcessorKind| self.kinds().contains(c) && kind_id(c) == id@ {
                let c = choose|c: ProcessorKind| self.kinds().contains(c) && kind_id(c) == id@;
                assert(self.processors@.contains(c));
                let j = choose|j: int| 0 <= j < self.processors@.len() && self.processors@[j] == c;
                assert(kind_id(self.processors@[j]) != id@);
            }
        }
        None
    }

    /// The descriptors of all registered processors, ordered by display
    /// name.
    pub fn descriptors(&self) -> (r: Vec<ProcessorDescriptor>)
        requires
            self.wf(),
        ensures
            exists|order: Seq<ProcessorKind>| {
                &&& forall|k: ProcessorKind| #[trigger] order.to_multiset().count(k) == if self.kinds().contains(k) { 1nat } else { 0nat }
                &&& #[trigger] sorted_by_key(order)
                &&& r@.len() == order.len()
                &&& forall|i: int| 0 <= i < order.len() ==> describes(#[trigger] r@[i], order[i])
            },
            r@.len() == self.kinds().len(),
            forall|i: int, j: int| 0 <= i < j < r@.len() ==> (#[trigger] r@[i]).id@ != (#[trigger] r@[j]).id@,
    {
        let mut copy: Vec<ProcessorKind> = Vec::new();
        let mut i: usize = 0;
        while i < self.processors.len()
            invariant
                i <= self.processors@.len(),
                copy@ == self.processors@.subrange(0, i as int),
            decreases self.processors.len() - i,
        {
            copy.push(self.processors[i]);
            i = i + 1;
            proof {
                assert(copy@ =~= self.processors@.subrange(0, i as int));
            }
        }
        proof {
            assert(copy@ =~= self.processors@);
        }
        let order = sort_by_text_key(copy);
        let mut r: Vec<ProcessorDescriptor> = Vec::new();
        let mut j: usize = 0;
        while j < order.len()
            invariant
                j <= order@.len(),
                r@.len() == j,
                forall|t: int| 0 <= t < j ==> describes(#[trigger] r@[t], order@[t]),
            decreases order.len() - j,
        {
            r.push(order[j].descriptor());
            j = j + 1;
        }
        proof {
            self.processors@.unique_seq_to_set();
            order@.to_multiset_ensures();
            self.processors@.to_multiset_ensures();
            self.processors@.lemma_multiset_has_no_duplicates();
            assert forall|k: ProcessorKind| #[trigger] order@.to_multiset().count(k) == if self.kinds().contains(k) { 1nat } else { 0nat } by {
                if self.kinds().contains(k) {
                    assert(self.processors@.contains(k));
                    assert(self.processors@.to_multiset().count(k) > 0);
                } else {
                    assert(!self.processors@.contains(k));
                }
            }
            assert(sorted_by_key(order@));
            order@.lemma_multiset_has_no_duplicates_conv();
            assert forall|i: int, j: int| 0 <= i < j < r@.len() implies (#[trigger] r@[i]).id@ != (#[trigger] r@[j]).id@ by {
                lemma_kind_id_injective(order@[i], order@[j]);
            }
        }
        r
    }

    /// The registry of the application: every processor is registered
    /// (trimming, format conversion, compression, repair, resolution
    /// transform, renaming, manual crop and anime upscaling).
    pub fn default_registry() -> (r: ProcessorRegistry)
        ensures
            r.wf(),
            r.kinds() == set![ProcessorKind::TrimTransparent, ProcessorKind::FormatConvert, ProcessorKind::Compress,
                ProcessorKind::Repair, ProcessorKind::ResolutionTransform, ProcessorKind::Rename,
                ProcessorKind::ManualCrop, ProcessorKind::UpscaleAnime],
            forall|k: ProcessorKind| #[trigger] r.kinds().contains(k) && r.lookup(kind_id(k)) == Some(k),
    {
        let mut registry = ProcessorRegistry::new();
        registry.register(ProcessorKind::TrimTransparent);
        registry.register(ProcessorKind::FormatConvert);
        registry.register(ProcessorKind::Compress);
        registry.register(ProcessorKind::Repair);
        registry.register(ProcessorKind::ResolutionTransform);
        registry.register(ProcessorKind::Rename);
        registry.register(ProcessorKind::ManualCrop);
        registry.register(ProcessorKind::UpscaleAnime);
        proof {
            assert(registry.kinds() =~= set![ProcessorKind::TrimTransparent, ProcessorKind::FormatConvert, ProcessorKind::Compress,
                ProcessorKind::Repair, ProcessorKind::ResolutionTransform, ProcessorKind::Rename,
                ProcessorKind::ManualCrop, ProcessorKind::UpscaleAnime]);
            assert forall|k: ProcessorKind| #[trigger] registry.kinds().contains(k) && registry.lookup(kind_id(k)) == Some(k) by {
                assert(registry.kinds().contains(k));
                let c = choose|c: ProcessorKind| registry.kinds().contains(c) && kind_id(c) == kind_id(k);
                lemma_kind_id_injective(c, k);
            }
        }
        registry
    }
}

/// A registered processor is found under its id, and lookups of other ids
/// are not changed by registering it.
pub proof fn lemma_register_then_get(before: ProcessorRegistry, after: ProcessorRegistry, kind: ProcessorKind, id: Seq<char>)
    requires
        after.kinds() == before.kinds().insert(kind),
    ensures
        after.lookup(kind_id(kind)) == Some(kind),
        id != kind_id(kind) ==> after.lookup(id) == before.lookup(id),
{
    assert(after.kinds().contains(kind));
    let c = choose|c: ProcessorKind| after.kinds().contains(c) && kind_id(c) == kind_id(kind);
    lemma_kind_id_injective(c, kind);
    if id != kind_id(kind) {
        assert forall|k: ProcessorKind| after.kinds().contains(k) && kind_id(k) == id <==> before.kinds().contains(k) && kind_id(k) == id by {}
        if exists|k: ProcessorKind| before.kinds().contains(k) && kind_id(k) == id {
            let c1 = choose|k: ProcessorKind| before.kinds().contains(k) && kind_id(k) == id;
            let c2 = choose|k: ProcessorKind| after.kinds().contains(k) && kind_id(k) == id;
            lemma_kind_id_injective(c1, c2);
        }
    }
}

} // verus!
