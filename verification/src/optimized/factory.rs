//! Creation of the optimized components, sized to the machine.

use vstd::prelude::*;

use crate::acceleration::chacha20_batch_accel::SimdFeatures;
use crate::bounds::{greater, max_usize, min_usize, smaller};
use crate::config::{MILLISECOND, cpu_cores};
use crate::optimized::buffer_pool::OptimizedBufferPool;
use crate::optimized::crypto_processor::OptimizedCryptoProcessor;
use crate::optimized::work_stealing_dispatcher::WorkStealingDispatcher;

verus! {

/// The load factor of cryptographic work, in thousandths.
pub const CRYPTO_LOAD_FACTOR: i32 = 800;

/// A number of workers for a load factor in thousandths, rounded to the
/// nearest, but at least two and at most four per processor.
pub open spec fn optimal_workers(load_factor: int, cpu_count: int) -> int {
    let scaled = cpu_count * (1000 + load_factor);
    let rounded = if scaled <= 0 {
        0
    } else {
        (scaled + 500) / 1000
    };
    smaller(greater(rounded, 2), smaller(cpu_count * 4, usize::MAX as int))
}

/// Half as many buffers again as tasks, rounded up.
pub open spec fn optimal_pool(expected_concurrency: int) -> int {
    smaller((expected_concurrency * 3 + 1) / 2, usize::MAX as int)
}

/// A product, as far as it can be counted.
fn times_capped(n: usize, factor: u8) -> (r: usize)
    ensures
        r == smaller(n * factor, usize::MAX as int),
{
    proof {
        let (a, b) = (n as int, factor as int);
        assert(0 <= a * b <= 0xffff_ffff_ffff_ffff * 0xff) by (nonlinear_arith)
            requires
                0 <= a <= 0xffff_ffff_ffff_ffff,
                0 <= b <= 0xff,
        ;
    }
    let product: u128 = n as u128 * factor as u128;
    if product > usize::MAX as u128 {
        usize::MAX
    } else {
        product as usize
    }
}

/// How components are sized.
#[derive(Debug, Clone, Copy)]
pub struct FactoryOptimizationModel {
    pub optimal_dispatcher_workers: usize,
    pub optimal_crypto_workers: usize,
    pub optimal_buffer_pool_size: usize,
    pub target_latency: u64,
    pub max_throughput: u64,
    /// In thousandths.
    pub resource_utilization: u64,
}

impl FactoryOptimizationModel {
    /// The model for a number of processors.
    pub open spec fn for_cores(cpu_count: usize) -> FactoryOptimizationModel {
        FactoryOptimizationModel {
            optimal_dispatcher_workers: cpu_count,
            optimal_crypto_workers: smaller(cpu_count * 2, usize::MAX as int) as usize,
            optimal_buffer_pool_size: 5000,
            target_latency: (50 * MILLISECOND) as u64,
            max_throughput: 100_000,
            resource_utilization: 700,
        }
    }

    /// The model for a number of processors.
    pub fn with_cores(cpu_count: usize) -> (m: Self)
        ensures
            m == Self::for_cores(cpu_count),
    {
        FactoryOptimizationModel {
            optimal_dispatcher_workers: cpu_count,
            optimal_crypto_workers: times_capped(cpu_count, 2),
            optimal_buffer_pool_size: 5000,
            target_latency: 50 * MILLISECOND,
            max_throughput: 100_000,
            resource_utilization: 700,
        }
    }

    /// The model for this machine.
    pub fn new() -> (m: Self)
        ensures
            exists|cores: usize| m == #[trigger] Self::for_cores(cores),
    {
        let cores: usize = cpu_cores();
        Self::with_cores(cores)
    }

    /// The number of workers for a load factor in thousandths.
    pub fn calculate_optimal_workers(&self, load_factor: i32, cpu_count: usize) -> (n: usize)
        ensures
            n == optimal_workers(load_factor as int, cpu_count as int),
            ({
                let scaled = cpu_count * (1000 + load_factor);
                cpu_count * 4 <= usize::MAX ==> {
                    &&& n <= 4 * cpu_count
                    &&& cpu_count > 0 ==> n >= 2
                    &&& 1500 <= scaled < 4000 * cpu_count + 500
                        ==> 1000 * n - 500 <= scaled < 1000 * n
                        + 500
                    &&& scaled >= 4000 * cpu_count + 500 ==> n == 4 * cpu_count
                    &&& scaled < 1500 && cpu_count > 0 ==> n == 2
                }
            }),
    {
        let factor: i128 = 1000 + load_factor as i128;
        proof {
            let c = cpu_count as int;
            let f = factor as int;
            assert(-0x1_0000_0000_0000_0000_0000_0000 <= c * f <= 0x1_0000_0000_0000_0000_0000_0000)
                by (nonlinear_arith)
                requires
                    0 <= c <= 0xffff_ffff_ffff_ffff,
                    -0x8000_0000 <= f <= 0x8000_0000 + 1000,
            ;
        }
        let scaled: i128 = cpu_count as i128 * factor;
        let rounded: usize = if scaled <= 0 {
            0
        } else {
            let r: i128 = (scaled + 500) / 1000;
            if r > usize::MAX as i128 {
                usize::MAX
            } else {
                r as usize
            }
        };
        min_usize(max_usize(rounded, 2), times_capped(cpu_count, 4))
    }

    /// The number of buffers for so many tasks at a time.
    pub fn calculate_optimal_buffer_pool(&self, expected_concurrency: usize) -> (n: usize)
        ensures
            n == optimal_pool(expected_concurrency as int),
            expected_concurrency * 2 <= usize::MAX ==> 3 * expected_concurrency <= 2 * n <= 3
                * expected_concurrency + 1,
    {
        let n: u128 = (expected_concurrency as u128 * 3 + 1) / 2;
        if n > usize::MAX as u128 {
            usize::MAX
        } else {
            n as usize
        }
    }
}

/// What was created.
#[derive(Debug, Clone, Copy)]
pub struct FactoryMetrics {
    pub dispatcher_created: u64,
    pub buffer_pool_created: u64,
    pub crypto_processor_created: u64,
    pub adaptive_batcher_created: u64,
    pub qos_manager_created: u64,
    pub circuit_breaker_created: u64,
    pub memory_allocated_bytes: u128,
    pub creation_timestamp: u64,
}

/// Creates components.
#[derive(Debug)]
pub struct OptimizedFactory {
    pub optimization_model: FactoryOptimizationModel,
    pub metrics: FactoryMetrics,
    pub enable_caching: bool,
    pub enable_optimization: bool,
    pub enable_metrics: bool,
}

/// The number of workers of a crypto processor.
pub open spec fn crypto_workers(optimize: bool, num_workers: usize, cpu_count: usize) -> int {
    if optimize {
        greater(optimal_workers(CRYPTO_LOAD_FACTOR as int, cpu_count as int), num_workers as int)
    } else {
        num_workers as int
    }
}

/// The number of buffers of a pool.
pub open spec fn pool_size(optimize: bool, max_buffers: usize) -> int {
    if optimize {
        optimal_pool(max_buffers as int)
    } else {
        max_buffers as int
    }
}

impl OptimizedFactory {
    /// A factory that has created nothing.
    pub fn new(now: u64) -> (f: Self)
        ensures
            exists|cores: usize|
                f.optimization_model == #[trigger] FactoryOptimizationModel::for_cores(cores),
            f.metrics == (FactoryMetrics {
                dispatcher_created: 0,
                buffer_pool_created: 0,
                crypto_processor_created: 0,
                adaptive_batcher_created: 0,
                qos_manager_created: 0,
                circuit_breaker_created: 0,
                memory_allocated_bytes: 0,
                creation_timestamp: now,
            }),
            f.enable_caching,
            f.enable_optimization,
            f.enable_metrics,
    {
        OptimizedFactory {
            optimization_model: FactoryOptimizationModel::new(),
            metrics: FactoryMetrics {
                dispatcher_created: 0,
                buffer_pool_created: 0,
                crypto_processor_created: 0,
                adaptive_batcher_created: 0,
                qos_manager_created: 0,
                circuit_breaker_created: 0,
                memory_allocated_bytes: 0,
                creation_timestamp: now,
            },
            enable_caching: true,
            enable_optimization: true,
            enable_metrics: true,
        }
    }

    /// A dispatcher, with its workers started.
    pub fn create_dispatcher(
        &self,
        num_workers: usize,
        queue_capacity: usize,
    ) -> (d: WorkStealingDispatcher)
        requires
            queue_capacity * 4 <= usize::MAX,
            queue_capacity * num_workers <= usize::MAX / 8,
        ensures
            d.wf(),
            d.is_new(num_workers, queue_capacity),
    {
        let mut d: WorkStealingDispatcher = WorkStealingDispatcher::new(
            num_workers,
            queue_capacity,
        );
        d.start_workers();
        proof {
            assert(d.stats@ =~= Map::<Seq<char>, u64>::empty().insert(
                "workers_started"@,
                num_workers as u64,
            ));
        }
        d
    }

    /// A buffer pool for so many tasks at a time.
    pub fn create_buffer_pool(
        &mut self,
        read_buffer_size: usize,
        write_buffer_size: usize,
        crypto_buffer_size: usize,
        max_buffers: usize,
        now: u64,
    ) -> (p: OptimizedBufferPool)
        requires
            pool_size(old(self).enable_optimization, max_buffers) * 100 <= usize::MAX,
            old(self).metrics.buffer_pool_created < u64::MAX,
            read_buffer_size + write_buffer_size + crypto_buffer_size <= usize::MAX,
            old(self).metrics.memory_allocated_bytes + (read_buffer_size + write_buffer_size
                + crypto_buffer_size) * pool_size(old(self).enable_optimization, max_buffers)
                <= u128::MAX,
        ensures
            p.wf(),
            p.is_new(pool_size(old(self).enable_optimization, max_buffers) as nat, now),
            *final(self) == (OptimizedFactory {
                metrics: final(self).metrics,
                ..*old(self)
            }),
            final(self).metrics == if old(self).enable_metrics {
                FactoryMetrics {
                    buffer_pool_created: (old(self).metrics.buffer_pool_created + 1) as u64,
                    memory_allocated_bytes: (old(self).metrics.memory_allocated_bytes + (
                    read_buffer_size + write_buffer_size + crypto_buffer_size) * pool_size(
                        old(self).enable_optimization,
                        max_buffers,
                    )) as u128,
                    ..old(self).metrics
                }
            } else {
                old(self).metrics
            },
    {
        let size: usize = if self.enable_optimization {
            self.optimization_model.calculate_optimal_buffer_pool(max_buffers)
        } else {
            max_buffers
        };
        let pool: OptimizedBufferPool = OptimizedBufferPool::new(size, now);
        if self.enable_metrics {
            let each: usize = read_buffer_size + write_buffer_size + crypto_buffer_size;
            proof {
                let (a, b) = (each as int, size as int);
                assert(0 <= a * b) by (nonlinear_arith)
                    requires
                        a >= 0,
                        b >= 0,
                ;
            }
            self.metrics.buffer_pool_created = self.metrics.buffer_pool_created + 1;
            self.metrics.memory_allocated_bytes = self.metrics.memory_allocated_bytes + each as u128
                * size as u128;
        }
        pool
    }

    /// The number of workers of a crypto processor on a machine with so many
    /// processors.
    pub fn crypto_worker_count(&self, num_workers: usize, cpu_count: usize) -> (n: usize)
        ensures
            n == crypto_workers(self.enable_optimization, num_workers, cpu_count),
            !self.enable_optimization ==> n == num_workers,
            n >= num_workers,
    {
        if self.enable_optimization {
            max_usize(
                self.optimization_model.calculate_optimal_workers(CRYPTO_LOAD_FACTOR, cpu_count),
                num_workers,
            )
        } else {
            num_workers
        }
    }

    /// A crypto processor with at least so many workers.
    pub fn create_crypto_processor(
        &mut self,
        num_workers: usize,
        features: SimdFeatures,
    ) -> (p: OptimizedCryptoProcessor)
        requires
            old(self).metrics.crypto_processor_created < u64::MAX,
        ensures
            p.wf(),
            exists|cores: usize|
                p.num_workers == #[trigger] crypto_workers(
                    old(self).enable_optimization,
                    num_workers,
                    cores,
                ),
            p.is_new(p.num_workers, features),
            *final(self) == (OptimizedFactory {
                metrics: final(self).metrics,
                ..*old(self)
            }),
            final(self).metrics == if old(self).enable_metrics {
                FactoryMetrics {
                    crypto_processor_created: (old(self).metrics.crypto_processor_created
                        + 1) as u64,
                    ..old(self).metrics
                }
            } else {
                old(self).metrics
            },
    {
        let cores: usize = cpu_cores();
        let workers: usize = self.crypto_worker_count(num_workers, cores);
        let p: OptimizedCryptoProcessor = OptimizedCryptoProcessor::new(workers, features);
        if self.enable_metrics {
            self.metrics.crypto_processor_created = self.metrics.crypto_processor_created + 1;
        }
        p
    }
}

/// A crypto processor has as many workers as were asked for, and on a machine
/// with any processors at least two.
pub proof fn crypto_processors_have_workers(num_workers: usize, cpu_count: usize)
    ensures
        crypto_workers(true, num_workers, cpu_count) >= num_workers,
        cpu_count > 0 ==> crypto_workers(true, num_workers, cpu_count) >= 2,
{
}

} // verus!
